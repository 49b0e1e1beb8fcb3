//! The text that the program prints when it is asked for help: how the
//! environment is set up, which account sections the environment holds,
//! and the policy defaults. Secrets are never printed.

use crate::sorted::{holds_text, insert_sorted, strictly_ordered};
use crate::text::{
    ascii_upper, chars_of, concat3, contains_seq, ends_with, slice_is, starts_with, str_contains,
    str_eq, string_of, to_ascii_uppercase,
};
use vstd::prelude::*;

verus! {

/// Some argument asks for help: it is `--help` or `-h`.
pub open spec fn asks_for_help(args: Seq<String>) -> bool {
    exists|i: int| 0 <= i < args.len() && ((#[trigger] args[i])@ == "--help"@ || args[i]@ == "-h"@)
}

/// Whether some argument asks for help.
pub fn should_print_help(args: &Vec<String>) -> (r: bool)
    ensures
        r == asks_for_help(args@),
{
    let mut i: usize = 0;
    while i < args.len()
        invariant
            i <= args.len(),
            forall|k: int|
                0 <= k < i ==> !((#[trigger] args@[k])@ == "--help"@ || args@[k]@ == "-h"@),
        decreases args.len() - i,
    {
        if str_eq(args[i].as_str(), "--help") || str_eq(args[i].as_str(), "-h") {
            return true;
        }
        i += 1;
    }
    false
}

/// A key names a secret if it holds `PASS`, `SECRET` or `TOKEN` in any
/// letter case.
pub open spec fn names_secret(key: Seq<char>) -> bool {
    let k = ascii_upper(key);
    contains_seq(k, "PASS"@) || contains_seq(k, "SECRET"@) || contains_seq(k, "TOKEN"@)
}

/// Whether a key names a secret.
pub fn is_secret_key(key: &str) -> (r: bool)
    ensures
        r == names_secret(key@),
{
    let k = to_ascii_uppercase(key);
    str_contains(k.as_str(), "PASS") || str_contains(k.as_str(), "SECRET") || str_contains(
        k.as_str(),
        "TOKEN",
    )
}

/// What is printed for the value of a key: `<unset>` for no value,
/// `<redacted>` for a secret that is not empty, `<empty>` for an empty
/// value, else the value.
pub open spec fn redacted(key: Seq<char>, value: Option<Seq<char>>) -> Seq<char> {
    match value {
        None => "<unset>"@,
        Some(v) => if names_secret(key) && v.len() > 0 {
            "<redacted>"@
        } else if v.len() == 0 {
            "<empty>"@
        } else {
            v
        },
    }
}

/// What is printed for the value of a key.
pub fn redact_value(key: &str, value: Option<&str>) -> (r: String)
    ensures
        r@ == redacted(
            key@,
            match value {
                Some(v) => Some(v@),
                None => None,
            },
        ),
{
    match value {
        None => "<unset>".to_owned(),
        Some(v) => {
            if v.unicode_len() > 0 {
                if is_secret_key(key) {
                    "<redacted>".to_owned()
                } else {
                    v.to_owned()
                }
            } else {
                "<empty>".to_owned()
            }
        },
    }
}

/// The section that remains of `rest` when the suffix `suffix` is taken
/// off, if `rest` ends with the suffix and more than the suffix is there.
pub open spec fn before_suffix(rest: Seq<char>, suffix: Seq<char>) -> Option<Seq<char>> {
    if ends_with(rest, suffix) && rest.len() > suffix.len() {
        Some(rest.subrange(0, rest.len() - suffix.len()))
    } else {
        None
    }
}

/// The account section that a key belongs to: what stands between
/// `MAIL_IMAP_` and one of `_HOST`, `_USER`, `_PASS`, `_PORT`, `_SECURE`.
pub open spec fn section_of(key: Seq<char>) -> Option<Seq<char>> {
    if !starts_with(key, "MAIL_IMAP_"@) {
        None
    } else {
        let rest = key.subrange("MAIL_IMAP_"@.len() as int, key.len() as int);
        if before_suffix(rest, "_HOST"@) is Some {
            before_suffix(rest, "_HOST"@)
        } else if before_suffix(rest, "_USER"@) is Some {
            before_suffix(rest, "_USER"@)
        } else if before_suffix(rest, "_PASS"@) is Some {
            before_suffix(rest, "_PASS"@)
        } else if before_suffix(rest, "_PORT"@) is Some {
            before_suffix(rest, "_PORT"@)
        } else {
            before_suffix(rest, "_SECURE"@)
        }
    }
}

fn strip_suffix(v: &Vec<char>, from: usize, suffix: &str) -> (r: Option<String>)
    requires
        from <= v.len(),
    ensures
        match before_suffix(v@.subrange(from as int, v.len() as int), suffix@) {
            Some(section) => r is Some && r->Some_0@ == section,
            None => r is None,
        },
{
    let n = suffix.unicode_len();
    let ghost rest = v@.subrange(from as int, v.len() as int);
    if v.len() - from <= n {
        return None;
    }
    assert(rest.subrange(rest.len() - n, rest.len() as int) =~= v@.subrange(
        v.len() - n,
        v.len() as int,
    ));
    if slice_is(v, v.len() - n, v.len(), suffix) {
        assert(rest.subrange(0, rest.len() - n) =~= v@.subrange(from as int, v.len() - n));
        Some(string_of(v, from, v.len() - n))
    } else {
        None
    }
}

/// The account section that a key belongs to, if it belongs to one.
pub fn section_of_key(key: &str) -> (r: Option<String>)
    ensures
        match section_of(key@) {
            Some(section) => r is Some && r->Some_0@ == section,
            None => r is None,
        },
{
    let v = chars_of(key);
    let n = "MAIL_IMAP_".unicode_len();
    if v.len() < n || !slice_is(&v, 0, n, "MAIL_IMAP_") {
        return None;
    }
    match strip_suffix(&v, n, "_HOST") {
        Some(s) => {
            return Some(s);
        },
        None => {},
    }
    match strip_suffix(&v, n, "_USER") {
        Some(s) => {
            return Some(s);
        },
        None => {},
    }
    match strip_suffix(&v, n, "_PASS") {
        Some(s) => {
            return Some(s);
        },
        None => {},
    }
    match strip_suffix(&v, n, "_PORT") {
        Some(s) => {
            return Some(s);
        },
        None => {},
    }
    strip_suffix(&v, n, "_SECURE")
}

/// The text `t` is the section of some key of `env`.
pub open spec fn is_section(env: Seq<(String, String)>, t: Seq<char>) -> bool {
    exists|i: int| 0 <= i < env.len() && section_of((#[trigger] env[i]).0@) == Some(t)
}

/// The account sections that the keys of an environment name, each once and
/// in the order of strings.
pub fn discover_account_sections(env_map: &Vec<(String, String)>) -> (sections: Vec<String>)
    ensures
        strictly_ordered(sections@),
        forall|t: Seq<char>| holds_text(sections@, t) <==> is_section(env_map@, t),
{
    let mut sections: Vec<String> = Vec::new();
    let mut i: usize = 0;
    while i < env_map.len()
        invariant
            i <= env_map.len(),
            strictly_ordered(sections@),
            forall|t: Seq<char>|
                holds_text(sections@, t) <==> is_section(env_map@.take(i as int), t),
        decreases env_map.len() - i,
    {
        let ghost before = sections@;
        let found = section_of_key(env_map[i].0.as_str());
        if let Some(s) = found {
            insert_sorted(&mut sections, s);
        }
        proof {
            let head = env_map@.take(i as int);
            let more = env_map@.take(i + 1);
            assert forall|t: Seq<char>| holds_text(sections@, t) <==> is_section(more, t) by {
                if is_section(more, t) {
                    let k = choose|k: int|
                        0 <= k < more.len() && section_of((#[trigger] more[k]).0@) == Some(t);
                    if k < i {
                        assert(head[k] == more[k]);
                        assert(is_section(head, t));
                    }
                }
                if is_section(head, t) {
                    let k = choose|k: int|
                        0 <= k < head.len() && section_of((#[trigger] head[k]).0@) == Some(t);
                    assert(more[k] == head[k]);
                }
                if section_of(env_map@[i as int].0@) == Some(t) {
                    assert(more[i as int] == env_map@[i as int]);
                }
            }
        }
        i += 1;
    }
    assert(env_map@.take(env_map.len() as int) =~= env_map@);
    sections
}

/// Index of the first variable of `env` named `key`, or `env.len()`.
pub open spec fn variable_position(env: Seq<(String, String)>, key: Seq<char>) -> int
    decreases env.len(),
{
    if env.len() == 0 || env[0].0@ == key {
        0
    } else {
        1 + variable_position(env.drop_first(), key)
    }
}

/// The value of the variable named `key`, if `env` holds one.
pub open spec fn variable(env: Seq<(String, String)>, key: Seq<char>) -> Option<Seq<char>> {
    if variable_position(env, key) < env.len() {
        Some(env[variable_position(env, key)].1@)
    } else {
        None
    }
}

pub proof fn lemma_variable_position_unique(env: Seq<(String, String)>, key: Seq<char>, k: int)
    requires
        0 <= k <= env.len(),
        k < env.len() ==> env[k].0@ == key,
        forall|i: int| 0 <= i < k ==> (#[trigger] env[i]).0@ != key,
    ensures
        variable_position(env, key) == k,
    decreases env.len(),
{
    if k > 0 {
        let t = env.drop_first();
        assert(env[0].0@ != key);
        assert forall|i: int| 0 <= i < k - 1 implies (#[trigger] t[i]).0@ != key by {
            assert(t[i] == env[i + 1]);
        }
        lemma_variable_position_unique(t, key, k - 1);
    }
}

fn find_variable<'a>(env: &'a Vec<(String, String)>, key: &str) -> (r: Option<&'a str>)
    ensures
        match variable(env@, key@) {
            Some(v) => r is Some && r->Some_0@ == v,
            None => r is None,
        },
{
    let mut i: usize = 0;
    while i < env.len() && !str_eq(env[i].0.as_str(), key)
        invariant
            i <= env.len(),
            forall|k: int| 0 <= k < i ==> (#[trigger] env@[k]).0@ != key@,
        decreases env.len() - i,
    {
        i += 1;
    }
    proof {
        lemma_variable_position_unique(env@, key@, i as int);
    }
    if i < env.len() {
        Some(env[i].1.as_str())
    } else {
        None
    }
}

/// The line of the help text for the variable `suffix` of a section.
pub open spec fn variable_line(env: Seq<(String, String)>, section: Seq<char>, suffix: Seq<char>) -> Seq<
    char,
> {
    let key = "MAIL_IMAP_"@ + section + "_"@ + suffix;
    "    "@ + key + "="@ + redacted(key, variable(env, key)) + "\n"@
}

/// The lines of the help text for one section: its name in brackets, then
/// its five variables.
pub open spec fn section_lines(env: Seq<(String, String)>, section: Seq<char>) -> Seq<char> {
    "  ["@ + section + "]\n"@ + variable_line(env, section, "HOST"@) + variable_line(
        env,
        section,
        "USER"@,
    ) + variable_line(env, section, "PASS"@) + variable_line(env, section, "PORT"@)
        + variable_line(env, section, "SECURE"@)
}

/// The lines of the help text for the sections `sections`.
pub open spec fn sections_lines(env: Seq<(String, String)>, sections: Seq<String>) -> Seq<char>
    decreases sections.len(),
{
    if sections.len() == 0 {
        Seq::empty()
    } else {
        sections_lines(env, sections.drop_last()) + section_lines(env, sections.last()@)
    }
}

/// How the environment is set up.
pub open spec fn help_head() -> Seq<char> {
    "mail-imap-mcp-rs\nSecure IMAP MCP server over stdio\n\nUsage:\n  mail-imap-mcp-rs\n  mail-imap-mcp-rs --help\n\nIMAP environment setup\n  Required per account section MAIL_IMAP_<ACCOUNT>_:\n    MAIL_IMAP_<ACCOUNT>_HOST\n    MAIL_IMAP_<ACCOUNT>_USER\n    MAIL_IMAP_<ACCOUNT>_PASS\n  Optional per account section:\n    MAIL_IMAP_<ACCOUNT>_PORT (default: 993)\n    MAIL_IMAP_<ACCOUNT>_SECURE (default: true)\n  If no account section is discovered from environment, DEFAULT is used by convention.\n\nDiscovered account sections (from current environment)\n"@
}

/// The policy defaults and the write gate.
pub open spec fn help_tail() -> Seq<char> {
    "\nGlobal policy defaults\n  MAIL_IMAP_WRITE_ENABLED=false\n  MAIL_IMAP_CONNECT_TIMEOUT_MS=30000\n  MAIL_IMAP_GREETING_TIMEOUT_MS=15000\n  MAIL_IMAP_SOCKET_TIMEOUT_MS=300000\n  MAIL_IMAP_CURSOR_TTL_SECONDS=600\n  MAIL_IMAP_CURSOR_MAX_ENTRIES=512\n\nSend/write gate policy\n  Read tools are enabled by default. Write-path tools are blocked unless MAIL_IMAP_WRITE_ENABLED=true.\n  This gate protects against accidental mailbox mutations (copy, move, flag updates, delete).\n"@
}

/// The help text for `sections`: the head, the lines of the sections (or a
/// note that there is none), the tail.
pub open spec fn help_text(env: Seq<(String, String)>, sections: Seq<String>) -> Seq<char> {
    help_head() + (if sections.len() == 0 {
        "  (none discovered)\n"@
    } else {
        sections_lines(env, sections)
    }) + help_tail()
}

fn push_variable_line(out: &mut String, env: &Vec<(String, String)>, section: &str, suffix: &str)
    ensures
        final(out)@ == old(out)@ + variable_line(env@, section@, suffix@),
{
    let mut key = concat3("MAIL_IMAP_", section, "_");
    key.append(suffix);
    let shown = redact_value(key.as_str(), find_variable(env, key.as_str()));
    let mut line = concat3("    ", key.as_str(), "=");
    line.append(shown.as_str());
    line.append("\n");
    out.append(line.as_str());
}

fn push_section_lines(out: &mut String, env: &Vec<(String, String)>, section: &str)
    ensures
        final(out)@ == old(out)@ + section_lines(env@, section@),
{
    let mut block = concat3("  [", section, "]\n");
    push_variable_line(&mut block, env, section, "HOST");
    push_variable_line(&mut block, env, section, "USER");
    push_variable_line(&mut block, env, section, "PASS");
    push_variable_line(&mut block, env, section, "PORT");
    push_variable_line(&mut block, env, section, "SECURE");
    out.append(block.as_str());
}

/// The help text for an environment. The sections it shows are those that
/// `discover_account_sections` finds.
pub fn build_help_output(env_map: &Vec<(String, String)>) -> (out: String)
    ensures
        exists|sections: Seq<String>|
            #![trigger help_text(env_map@, sections)]
            {
                &&& strictly_ordered(sections)
                &&& forall|t: Seq<char>| holds_text(sections, t) <==> is_section(env_map@, t)
                &&& out@ == help_text(env_map@, sections)
            },
{
    let sections = discover_account_sections(env_map);
    let mut out = String::from_str(
        "mail-imap-mcp-rs\nSecure IMAP MCP server over stdio\n\nUsage:\n  mail-imap-mcp-rs\n  mail-imap-mcp-rs --help\n\nIMAP environment setup\n  Required per account section MAIL_IMAP_<ACCOUNT>_:\n    MAIL_IMAP_<ACCOUNT>_HOST\n    MAIL_IMAP_<ACCOUNT>_USER\n    MAIL_IMAP_<ACCOUNT>_PASS\n  Optional per account section:\n    MAIL_IMAP_<ACCOUNT>_PORT (default: 993)\n    MAIL_IMAP_<ACCOUNT>_SECURE (default: true)\n  If no account section is discovered from environment, DEFAULT is used by convention.\n\nDiscovered account sections (from current environment)\n",
    );
    if sections.len() == 0 {
        out.append("  (none discovered)\n");
    } else {
        let mut block = String::new();
        let mut i: usize = 0;
        assert(sections@.take(0) =~= Seq::<String>::empty());
        while i < sections.len()
            invariant
                i <= sections.len(),
                block@ == sections_lines(env_map@, sections@.take(i as int)),
            decreases sections.len() - i,
        {
            proof {
                assert(sections@.take(i + 1).drop_last() =~= sections@.take(i as int));
                assert(sections@.take(i + 1).last() == sections@[i as int]);
            }
            push_section_lines(&mut block, env_map, sections[i].as_str());
            i += 1;
        }
        assert(sections@.take(sections.len() as int) =~= sections@);
        out.append(block.as_str());
    }
    out.append(
        "\nGlobal policy defaults\n  MAIL_IMAP_WRITE_ENABLED=false\n  MAIL_IMAP_CONNECT_TIMEOUT_MS=30000\n  MAIL_IMAP_GREETING_TIMEOUT_MS=15000\n  MAIL_IMAP_SOCKET_TIMEOUT_MS=300000\n  MAIL_IMAP_CURSOR_TTL_SECONDS=600\n  MAIL_IMAP_CURSOR_MAX_ENTRIES=512\n\nSend/write gate policy\n  Read tools are enabled by default. Write-path tools are blocked unless MAIL_IMAP_WRITE_ENABLED=true.\n  This gate protects against accidental mailbox mutations (copy, move, flag updates, delete).\n",
    );
    assert(out@ == help_text(env_map@, sections@));
    out
}

} // verus!
