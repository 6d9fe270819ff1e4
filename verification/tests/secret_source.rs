use vandelay::error::Error;
use vandelay::secret::{prompt_reply, resolve_from};

#[test]
fn flag_then_environment_then_prompt_then_error() {
    assert_eq!(resolve_from(Some("f"), Some("e"), true, "PW", "password").unwrap(), Some("f".to_owned()));
    assert_eq!(resolve_from(None, Some("e"), false, "PW", "password").unwrap(), Some("e".to_owned()));
    assert_eq!(resolve_from(None, Some(""), true, "PW", "password").unwrap(), None);
    assert_eq!(resolve_from(None, None, true, "PW", "password").unwrap(), None);
    match resolve_from(None, None, false, "PW", "password") {
        Err(Error::Usage(m)) => assert_eq!(
            m,
            "no password provided: pass the flag, set $PW, or run on a TTY for an interactive prompt"
        ),
        other => panic!("unexpected {other:?}"),
    }
}

#[test]
fn prompt_reply_drops_line_end_and_rejects_empty() {
    assert_eq!(prompt_reply("token", "abc\r\n").unwrap(), "abc");
    assert_eq!(prompt_reply("token", "a b \n").unwrap(), "a b ");
    match prompt_reply("token", "\r\n\n") {
        Err(Error::Usage(m)) => assert_eq!(m, "empty token"),
        other => panic!("unexpected {other:?}"),
    }
}
