use vstd::prelude::*;

verus! {

/// The plugin as the host sees it: it serves exactly one command.
pub struct WebSocketPlugin;

/// The one command: connect to a WebSocket, send optional input data, and
/// stream the output back into the pipeline.
pub struct WebSocket;

impl WebSocketPlugin {
    /// The plugin's version string.
    pub fn version(&self) -> (r: String)
        ensures
            r@ == "0.3.2"@,
    {
        "0.3.2".to_owned()
    }

    /// The commands the plugin serves: exactly the one streaming command.
    pub fn commands(&self) -> (r: Vec<WebSocket>)
        ensures
            r@.len() == 1,
    {
        let mut v: Vec<WebSocket> = Vec::new();
        v.push(WebSocket);
        v
    }
}

impl WebSocket {
    /// The name the command is invoked by.
    pub fn name(&self) -> (r: String)
        ensures
            r@ == "ws"@,
    {
        "ws".to_owned()
    }

    /// The command's one-line description.
    pub fn description(&self) -> (r: String)
        ensures
            r@ == "connect to a websocket, send optional input data, and stream output"@,
    {
        "connect to a websocket, send optional input data, and stream output".to_owned()
    }
}

/// The verbosity levels the command's flag selects among.
#[derive(Clone, Copy, PartialEq, Eq, Structural, Debug)]
pub enum LogLevel {
    ErrorOnly,
    Warn,
    Info,
    Debug,
    Trace,
}

/// Map the verbose flag to a log level: 0 through 4 name the levels from
/// errors only up to trace, any other number means info, and an absent flag
/// means errors only.
pub fn log_level_for(verbose: Option<i64>) -> (r: LogLevel)
    ensures
        verbose is None ==> r is ErrorOnly,
        (verbose matches Some(v) ==> r == (if v == 0 {
            LogLevel::ErrorOnly
        } else if v == 1 {
            LogLevel::Warn
        } else if v == 2 {
            LogLevel::Info
        } else if v == 3 {
            LogLevel::Debug
        } else if v == 4 {
            LogLevel::Trace
        } else {
            LogLevel::Info
        })),
{
    match verbose {
        None => LogLevel::ErrorOnly,
        Some(0) => LogLevel::ErrorOnly,
        Some(1) => LogLevel::Warn,
        Some(2) => LogLevel::Info,
        Some(3) => LogLevel::Debug,
        Some(4) => LogLevel::Trace,
        Some(_) => LogLevel::Info,
    }
}

} // verus!
