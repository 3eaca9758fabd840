use youtubei_native::youtube::runtime_failure;
use youtubei_native::{Error, Invocation, NativeUnit, OpenStep, Opening, Youtube};

/// A stand-in runtime: the driver answers every call with a reply computed from
/// the method and input it reads, written byte by byte.
struct Echo {
    loaded: Vec<&'static str>,
    fail_unit: Option<&'static str>,
    status: i32,
}

impl Echo {
    fn new() -> Self {
        Echo { loaded: Vec::new(), fail_unit: None, status: 0 }
    }

    fn run(&mut self, unit: NativeUnit, invocation: &mut Invocation) -> bool {
        let name = match unit {
            NativeUnit::Host => "host",
            NativeUnit::Youtube => "youtube",
            NativeUnit::Driver => "driver",
        };
        self.loaded.push(name);
        if self.fail_unit == Some(name) {
            return false;
        }
        if let NativeUnit::Driver = unit {
            let method: Vec<u8> =
                (0..invocation.input_length(1)).map(|i| invocation.input_byte(1, i) as u8).collect();
            let input: Vec<u8> =
                (0..invocation.input_length(0)).map(|i| invocation.input_byte(0, i) as u8).collect();
            let reply = match method.as_slice() {
                b"sessionName" => b"WEB".to_vec(),
                _ => {
                    let mut r = method.clone();
                    r.push(b' ');
                    r.extend_from_slice(&input);
                    r
                }
            };
            for (i, b) in reply.iter().enumerate() {
                invocation.output_byte(i as i32, *b as i32);
            }
            invocation.complete(self.status, reply.len() as i32);
        }
        true
    }

    /// Loads the opening units, in the order the opening asks for them.
    fn open(&mut self) -> Result<Youtube, Error> {
        let mut opening = Opening::new();
        loop {
            let unit = opening.unit();
            let mut idle = Invocation::new();
            let completed = self.run(unit, &mut idle);
            match opening.finished(completed) {
                OpenStep::Next(next) => opening = next,
                OpenStep::Opened(youtube) => return Ok(youtube),
                OpenStep::Failed(error) => return Err(error),
            }
        }
    }

    /// Hands a prepared call to the driver and settles it.
    fn drive(&mut self, call: Result<Invocation, Error>) -> Result<String, Error> {
        let mut invocation = call?;
        let completed = self.run(NativeUnit::Driver, &mut invocation);
        invocation.settle(completed)
    }
}

#[test]
fn opening_loads_host_then_youtube() {
    let mut echo = Echo::new();
    assert!(echo.open().is_ok());
    assert_eq!(echo.loaded, vec!["host", "youtube"]);
}

#[test]
fn opening_reports_a_failed_unit() {
    let mut echo = Echo::new();
    echo.fail_unit = Some("youtube");
    match echo.open() {
        Err(Error::Initialization(m)) => {
            assert_eq!(m, "Native unit failed; see stderr for its exception")
        }
        _ => panic!("expected an initialization error"),
    }
    assert_eq!(echo.loaded, vec!["host", "youtube"]);
}

#[test]
fn a_failed_host_unit_stops_loading() {
    let mut echo = Echo::new();
    echo.fail_unit = Some("host");
    assert!(echo.open().is_err());
    assert_eq!(echo.loaded, vec!["host"]);
}

#[test]
fn opening_steps() {
    let opening = Opening::new();
    assert_eq!(opening.unit(), NativeUnit::Host);
    let next = match opening.finished(true) {
        OpenStep::Next(next) => next,
        _ => panic!("expected the next unit"),
    };
    assert_eq!(next.unit(), NativeUnit::Youtube);
    assert!(matches!(next.finished(true), OpenStep::Opened(_)));
    assert!(matches!(Opening::new().finished(false), OpenStep::Failed(Error::Initialization(_))));
}

#[test]
fn session_name_comes_from_the_driver() {
    let mut echo = Echo::new();
    let youtube = echo.open().unwrap();
    assert_eq!(echo.drive(Ok(youtube.session_client_name())).unwrap(), "WEB");
    assert_eq!(echo.drive(Ok(youtube.session_client_name())).unwrap(), "WEB");
}

#[test]
fn call_passes_method_and_input() {
    let mut echo = Echo::new();
    let youtube = echo.open().unwrap();
    let call = youtube.call("parseText", "{").unwrap();
    assert_eq!(call.input_length(1), 9);
    assert_eq!(call.input_length(0), 1);
    assert_eq!(call.input_byte(0, 0), b'{' as i32);
    assert_eq!(echo.drive(Ok(call)).unwrap(), "parseText {");
}

#[test]
fn each_call_starts_fresh() {
    let mut echo = Echo::new();
    let youtube = echo.open().unwrap();
    assert_eq!(echo.drive(youtube.call("first", "long input")).unwrap(), "first long input");
    assert_eq!(echo.drive(youtube.call("x", "y")).unwrap(), "x y");
    let mut silent = youtube.call("x", "y").unwrap();
    silent.complete(0, 0);
    assert_eq!(silent.settle(true).unwrap(), "");
}

#[test]
fn javascript_failure_then_recovery() {
    let mut echo = Echo::new();
    echo.status = 1;
    let youtube = echo.open().unwrap();
    match echo.drive(youtube.call("parseText", "{")) {
        Err(Error::Javascript(m)) => assert_eq!(m, "parseText {"),
        _ => panic!("expected a JavaScript error"),
    }
    echo.status = 0;
    assert_eq!(echo.drive(youtube.call("parseText", "}")).unwrap(), "parseText }");
}

#[test]
fn parse_text_sends_the_json() {
    let mut echo = Echo::new();
    let youtube = echo.open().unwrap();
    let mut object = serde_json::Map::new();
    object.insert(
        "simpleText".to_string(),
        serde_json::Value::String("Hello from Rust \u{1F980}".to_string()),
    );
    let value = serde_json::Value::Object(object);
    assert_eq!(
        echo.drive(youtube.parse_text(&value)).unwrap(),
        "parseText {\"simpleText\":\"Hello from Rust \u{1F980}\"}"
    );
}

#[test]
fn playlist_request_names_the_id() {
    let mut echo = Echo::new();
    let youtube = echo.open().unwrap();
    assert_eq!(
        echo.drive(youtube.playlist_pages("PL\"x")).unwrap(),
        "playlistPages {\"id\":\"PL\\\"x\"}"
    );
}

#[test]
fn empty_playlist_id_is_refused() {
    let mut echo = Echo::new();
    let youtube = echo.open().unwrap();
    match youtube.playlist_pages("") {
        Err(Error::InvalidInput(m)) => assert_eq!(m, "Playlist ID is empty"),
        _ => panic!("expected invalid input"),
    }
    assert_eq!(echo.loaded, vec!["host", "youtube"]);
}

#[test]
fn runtime_failure_keeps_the_reason() {
    match runtime_failure(Some("out of memory".to_string())) {
        Error::Initialization(m) => assert_eq!(m, "out of memory"),
        _ => panic!("expected an initialization error"),
    }
    match runtime_failure(None) {
        Error::Initialization(m) => assert_eq!(m, "Hermes initialization failed"),
        _ => panic!("expected an initialization error"),
    }
}

#[test]
fn error_messages() {
    assert_eq!(Error::Busy.message(), "A compiled YouTube runtime is already open");
    assert_eq!(Error::Javascript("boom".into()).message(), "boom");
    assert_eq!(Error::InvalidOutput("bad".into()).message(), "bad");
}
