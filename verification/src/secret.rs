//! Where a secret comes from: a flag, the environment or an interactive
//! prompt, and what a prompt's reply gives. Reading the environment and the
//! terminal is left to the caller.
use vstd::prelude::*;
use crate::error::Error;

verus! {

/// The message when no secret is available.
pub open spec fn missing_message(env_var: Seq<char>, label: Seq<char>) -> Seq<char> {
    "no "@ + label + " provided: pass the flag, set $"@ + env_var
        + ", or run on a TTY for an interactive prompt"@
}

/// The secret to use: the flag's value, else a non-empty environment value,
/// else (`Ok(None)`) a prompt when standard input is a terminal, else a
/// usage error.
pub fn resolve_from(
    flag_value: Option<&str>,
    env_value: Option<&str>,
    stdin_is_terminal: bool,
    env_var: &str,
    prompt_label: &str,
) -> (r: Result<Option<String>, Error>)
    ensures
        match flag_value {
            Some(v) => r matches Ok(Some(x)) && x@ == v@,
            None => match env_value {
                Some(e) if e@.len() > 0 => r matches Ok(Some(x)) && x@ == e@,
                _ => if stdin_is_terminal {
                    r matches Ok(None)
                } else {
                    r matches Err(Error::Usage(m)) && m@ == missing_message(env_var@, prompt_label@)
                },
            },
        },
{
    if let Some(value) = flag_value {
        return Ok(Some(value.to_owned()));
    }
    if let Some(value) = env_value {
        if !value.is_empty() {
            return Ok(Some(value.to_owned()));
        }
    }
    if stdin_is_terminal {
        return Ok(None);
    }
    let mut m = "no ".to_owned();
    m.append(prompt_label);
    m.append(" provided: pass the flag, set $");
    m.append(env_var);
    m.append(", or run on a TTY for an interactive prompt");
    Err(Error::Usage(m))
}

/// The text without its trailing carriage returns and line feeds.
pub open spec fn without_line_end(s: Seq<char>) -> Seq<char>
    decreases s.len(),
{
    if s.len() > 0 && (s.last() == '\r' || s.last() == '\n') {
        without_line_end(s.drop_last())
    } else {
        s
    }
}

/// The secret in a prompt's reply: the line without its line end; an empty
/// reply is a usage error.
pub fn prompt_reply(label: &str, line: &str) -> (r: Result<String, Error>)
    ensures
        without_line_end(line@).len() > 0 ==> (r matches Ok(x) && x@ == without_line_end(line@)),
        without_line_end(line@).len() == 0 ==> (r matches Err(Error::Usage(m)) && m@ == "empty "@ + label@),
{
    let v = crate::text::chars_of(line);
    let mut k = v.len();
    assert(v@.take(k as int) =~= line@);
    while k > 0 && (v[k - 1] == '\r' || v[k - 1] == '\n')
        invariant
            v@ == line@,
            k <= v@.len(),
            without_line_end(line@) == without_line_end(v@.take(k as int)),
        decreases k,
    {
        assert(v@.take(k as int).drop_last() =~= v@.take(k - 1));
        k -= 1;
    }
    assert(without_line_end(v@.take(k as int)) == v@.take(k as int));
    if k == 0 {
        let mut m = "empty ".to_owned();
        m.append(label);
        return Err(Error::Usage(m));
    }
    let mut out = String::new();
    let mut i: usize = 0;
    while i < k
        invariant
            v@ == line@,
            k <= v@.len(),
            i <= k,
            out@ == v@.take(i as int),
        decreases k - i,
    {
        crate::text::push_char(&mut out, v[i]);
        assert(v@.take(i + 1) =~= v@.take(i as int).push(v@[i as int]));
        i += 1;
    }
    Ok(out)
}

} // verus!
