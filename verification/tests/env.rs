use picoserve::env::{Environment, EnvironmentError, Invocation, DEFAULT_HOST, DEFAULT_PORT};

fn args(all: &[&str]) -> Vec<String> {
    all.iter().map(|a| a.to_string()).collect()
}

fn current() -> Result<String, std::io::Error> {
    Ok("/home/me".to_owned())
}

fn settings(all: &[&str]) -> Environment {
    match Environment::new(&args(all), current()) {
        Ok(Invocation::Serve(env)) => env,
        other => panic!("{:?}", other),
    }
}

#[test]
fn defaults() {
    let env = settings(&[]);
    assert_eq!("/home/me", env.dir_ref());
    assert_eq!("127.0.0.1", env.host_ref());
    assert_eq!(DEFAULT_HOST, env.host_ref());
    assert!(!env.index());
    assert_eq!(5555, env.port());
    assert_eq!(DEFAULT_PORT, env.port());
}

#[test]
fn every_flag() {
    let env = settings(&["--port", "8080", "--index", "--dir", "/srv/www", "--host", "::1"]);
    assert_eq!("/srv/www", env.dir_ref());
    assert_eq!("::1", env.host_ref());
    assert!(env.index());
    assert_eq!(8080, env.port());
}

#[test]
fn the_last_value_counts() {
    let env = settings(&["--dir", "a", "--port", "1", "--dir", "b", "--port", "2"]);
    assert_eq!("b", env.dir_ref());
    assert_eq!(2, env.port());
}

#[test]
fn other_arguments_are_passed_over() {
    let env = settings(&["serve", "-v", "--Index", "--port=80", "--", "--index"]);
    assert!(env.index());
    assert_eq!(5555, env.port());
    assert_eq!("/home/me", env.dir_ref());
}

#[test]
fn a_value_may_look_like_a_flag() {
    let env = settings(&["--dir", "--index", "--host", "--help"]);
    assert_eq!("--index", env.dir_ref());
    assert_eq!("--help", env.host_ref());
    assert!(!env.index());
}

#[test]
fn ports_are_decimal_numbers_up_to_65535() {
    assert_eq!(0, settings(&["--port", "0"]).port());
    assert_eq!(80, settings(&["--port", "+80"]).port());
    assert_eq!(80, settings(&["--port", "0000080"]).port());
    assert_eq!(65535, settings(&["--port", "65535"]).port());
    for port in ["", "+", "-1", "65536", "99999999999999999999", "80 ", " 80", "0x50", "8_0", "8.0", "\u{661}", "++1", "eighty"] {
        match Environment::new(&args(&["--index", "--port", port, "--help"]), current()) {
            Err(error @ EnvironmentError::PortNotInteger { .. }) => {
                assert_eq!(
                    format!("provided port '{}' is not a valid integer", port),
                    error.message()
                );
            }
            other => panic!("{:?}", other),
        }
    }
}

#[test]
fn a_flag_without_value_is_an_error() {
    for flag in ["--dir", "--host", "--port"] {
        match Environment::new(&args(&["--index", flag]), current()) {
            Err(error @ EnvironmentError::NoMatchingValue { .. }) => {
                assert_eq!(
                    format!("flag '{}' has no matching value", flag),
                    error.message()
                );
            }
            other => panic!("{:?}", other),
        }
    }
}

#[test]
fn help_stops_the_reading() {
    assert!(matches!(
        Environment::new(&args(&["--help"]), current()),
        Ok(Invocation::Help)
    ));
    assert!(matches!(
        Environment::new(&args(&["--index", "--help", "--port", "x"]), current()),
        Ok(Invocation::Help)
    ));
    assert!(matches!(
        Environment::new(&args(&["--port", "x", "--help"]), current()),
        Err(EnvironmentError::PortNotInteger { .. })
    ));
}

#[test]
fn the_current_directory_is_needed_only_without_dir() {
    let gone = || Err(std::io::Error::new(std::io::ErrorKind::NotFound, "gone"));
    match Environment::new(&args(&["--index"]), gone()) {
        Err(error @ EnvironmentError::CurrentDirectoryInvalid { .. }) => {
            assert_eq!(
                "current directory is invalid or does not exist",
                error.message()
            );
        }
        other => panic!("{:?}", other),
    }
    match Environment::new(&args(&["--dir", "/srv"]), gone()) {
        Ok(Invocation::Serve(env)) => assert_eq!("/srv", env.dir_ref()),
        other => panic!("{:?}", other),
    }
    assert!(matches!(
        Environment::new(&args(&["--help"]), gone()),
        Ok(Invocation::Help)
    ));
}
