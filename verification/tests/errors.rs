use what::error::{status_text, DiagnosisError, ErrorKind};

#[test]
fn documented_statuses_have_their_messages() {
    assert_eq!(status_text(401), "Incorrect API key provided");
    assert_eq!(status_text(403), "Country, region, or territory not supported");
    assert_eq!(status_text(429), "Exceeded current quota or too many requests");
    assert_eq!(status_text(500), "Server had an error while processing the request");
    assert_eq!(status_text(503), "The engine is currently overloaded, try again later");
}

#[test]
fn other_statuses_have_the_generic_message() {
    assert_eq!(status_text(418), "unexpected error: status 418");
    assert_eq!(status_text(0), "unexpected error: status 0");
    assert_eq!(status_text(404), "unexpected error: status 404");
    assert_eq!(status_text(u16::MAX), "unexpected error: status 65535");
    for status in [400u16, 402, 428, 430, 499, 501, 502, 504] {
        let text = status_text(status);
        assert!(text.contains("unexpected error"));
        assert!(text.contains(&status.to_string()));
    }
}

#[test]
fn remote_failure_shows_the_message_of_its_status() {
    assert_eq!(DiagnosisError::RemoteService(401).message(), "Incorrect API key provided");
    assert_eq!(DiagnosisError::RemoteService(418).message(), "unexpected error: status 418");
}

#[test]
fn messages_of_the_failures() {
    assert_eq!(
        DiagnosisError::MissingShell.message(),
        "couldn't get the current shell from environment variable `SHELL`"
    );
    assert_eq!(DiagnosisError::MissingSession.message(), "process must run inside TMUX");
    assert_eq!(DiagnosisError::MissingHome.message(), "`$HOME` env variable is not set.");
    assert_eq!(
        DiagnosisError::UnsupportedShell("/usr/bin/fish".to_string()).message(),
        "unsupported shell to get prompt from `/usr/bin/fish`"
    );
    assert_eq!(
        DiagnosisError::SpawnFailed("tmux".to_string()).message(),
        "couldn't spawn process `tmux`"
    );
    assert_eq!(
        DiagnosisError::ExitFailure("tmux".to_string()).message(),
        "process `tmux` exited with error status code"
    );
    assert_eq!(
        DiagnosisError::ExitSuccess("ls".to_string()).message(),
        "process `ls` didn't exit with error status code, aborting"
    );
    assert_eq!(
        DiagnosisError::MissingPrompt.message(),
        "couldn't get last line in terminal prompt output"
    );
    assert_eq!(
        DiagnosisError::EmptyCapture.message(),
        "couldn't capture anything from the terminal, is SHELL env variable set correctly?"
    );
    assert_eq!(DiagnosisError::Protocol.message(), "unexpected message in the diagnosis stream");
    assert_eq!(
        DiagnosisError::Transport("timed out".to_string()).message(),
        "unexpected error response: timed out"
    );
    assert_eq!(
        DiagnosisError::MissingConfiguration("/home/u/.what.config.json".to_string()).message(),
        "couldn't find configuration file at `/home/u/.what.config.json`"
    );
    assert_eq!(DiagnosisError::InvalidConfiguration.message(), "configuration file holds no token");
}

#[test]
fn kinds_of_the_failures() {
    assert_eq!(DiagnosisError::MissingShell.kind(), ErrorKind::Environment);
    assert_eq!(DiagnosisError::MissingSession.kind(), ErrorKind::Environment);
    assert_eq!(DiagnosisError::MissingHome.kind(), ErrorKind::Environment);
    assert_eq!(DiagnosisError::UnsupportedShell(String::new()).kind(), ErrorKind::UnsupportedShell);
    assert_eq!(DiagnosisError::SpawnFailed(String::new()).kind(), ErrorKind::Process);
    assert_eq!(DiagnosisError::ExitFailure(String::new()).kind(), ErrorKind::Process);
    assert_eq!(DiagnosisError::ExitSuccess(String::new()).kind(), ErrorKind::Process);
    assert_eq!(DiagnosisError::MissingPrompt.kind(), ErrorKind::Process);
    assert_eq!(DiagnosisError::EmptyCapture.kind(), ErrorKind::EmptyCapture);
    assert_eq!(DiagnosisError::Protocol.kind(), ErrorKind::Protocol);
    assert_eq!(DiagnosisError::Transport(String::new()).kind(), ErrorKind::Protocol);
    assert_eq!(DiagnosisError::RemoteService(500).kind(), ErrorKind::RemoteService);
    assert_eq!(DiagnosisError::MissingConfiguration(String::new()).kind(), ErrorKind::Configuration);
    assert_eq!(DiagnosisError::InvalidConfiguration.kind(), ErrorKind::Configuration);
}
