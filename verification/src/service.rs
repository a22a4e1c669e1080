//! The daemon as a service of systemd.

use crate::error::Error;
use crate::json::{Fields, JsonValue};
use crate::printing::{
    enveloped, print_json, CommandOutput, CommandOutputView, Printout, PrintoutView,
};
use crate::text::{cat2, cat3, chars_of, same_text};
use vstd::prelude::*;
use vstd::string::*;

verus! {

// ---------------------------------------------------------------------------
// The unit file
// ---------------------------------------------------------------------------

/// A character within quotes in a unit file. Percent signs are doubled, or they
/// would begin a specifier; and so are dollar signs, or they would begin a
/// variable, in an argument but not in the name of the program.
pub open spec fn unit_char(c: char, argument: bool) -> Seq<char> {
    if c == '"' || c == '\\' {
        seq!['\\', c]
    } else if c == '\n' {
        seq!['\\', 'n']
    } else if c == '%' || (argument && c == '$') {
        seq![c, c]
    } else {
        seq![c]
    }
}

/// A text within quotes in a unit file, without the quotes.
pub open spec fn unit_chars(s: Seq<char>, argument: bool) -> Seq<char>
    decreases s.len(),
{
    if s.len() == 0 {
        s
    } else {
        unit_chars(s.drop_last(), argument) + unit_char(s.last(), argument)
    }
}

/// A text as one word of a command in a unit file.
pub open spec fn unit_word(s: Seq<char>, argument: bool) -> Seq<char> {
    "\""@ + unit_chars(s, argument) + "\""@
}

fn quote_for_unit(s: &str, argument: bool) -> (r: String)
    ensures
        r@ == unit_word(s@, argument),
{
    let v = chars_of(s);
    let mut inner = String::new();
    let mut i: usize = 0;
    assert(inner@ =~= unit_chars(v@.take(0), argument));
    while i < v.len()
        invariant
            i <= v@.len(),
            inner@ == unit_chars(v@.take(i as int), argument),
        decreases v@.len() - i,
    {
        let ghost before = inner@;
        let c = v[i];
        if c == '"' || c == '\\' {
            inner.push('\\');
            inner.push(c);
        } else if c == '\n' {
            inner.push('\\');
            inner.push('n');
        } else if c == '%' || (argument && c == '$') {
            inner.push(c);
            inner.push(c);
        } else {
            inner.push(c);
        }
        assert(inner@ =~= before + unit_char(c, argument));
        assert(v@.take(i + 1).drop_last() =~= v@.take(i as int));
        i += 1;
    }
    assert(v@.take(i as int) =~= v@);
    cat3("\"", inner.as_str(), "\"")
}

/// The unit file of the service: it runs the program at `binary` as the daemon,
/// and removes the socket behind it.
pub open spec fn unit_text(binary: Seq<char>, socket: Seq<char>) -> Seq<char> {
    "[Unit]\nDescription=AgentSSH daemon\n\n[Service]\nExecStart="@ + unit_word(binary, false)
        + " daemon serve\nExecStopPost=-/bin/rm -f "@ + unit_word(socket, true)
        + "\nRestart=on-failure\n\n[Install]\nWantedBy=default.target\n"@
}

/// The unit file of the service.
pub fn unit_file(binary: &str, socket: &str) -> (r: String)
    ensures
        r@ == unit_text(binary@, socket@),
{
    let start = cat3(
        "[Unit]\nDescription=AgentSSH daemon\n\n[Service]\nExecStart=",
        quote_for_unit(binary, false).as_str(),
        " daemon serve\nExecStopPost=-/bin/rm -f ",
    );
    cat3(
        start.as_str(),
        quote_for_unit(socket, true).as_str(),
        "\nRestart=on-failure\n\n[Install]\nWantedBy=default.target\n",
    )
}

/// Where the unit file belongs, given the directory of the user's configuration.
pub fn unit_path(config: &str) -> (r: String)
    ensures
        r@ == config@ + "/systemd/user/agentssh.service"@,
{
    cat2(config, "/systemd/user/agentssh.service")
}

/// Whether the daemon can be a service, given the name of the operating system:
/// on Linux only.
pub fn service_supported(os: &str) -> (r: Result<(), Error>)
    ensures
        r == if os@ == "linux"@ {
            Ok::<(), Error>(())
        } else {
            Err(Error::ServiceUnsupported)
        },
{
    if same_text(os, "linux") {
        Ok(())
    } else {
        Err(Error::ServiceUnsupported)
    }
}

// ---------------------------------------------------------------------------
// What is printed
// ---------------------------------------------------------------------------

/// What is printed when the daemon has been installed: where its program, its
/// socket and its unit file are.
pub open spec fn install_notice(
    binary: Seq<char>,
    socket: Seq<char>,
    unit: Seq<char>,
    json: bool,
) -> CommandOutputView {
    if json {
        CommandOutputView::of(
            PrintoutView::Pretty(
                enveloped(
                    JsonValue::Object(
                        seq![
                            ("binary"@, JsonValue::Text(binary)),
                            ("socket"@, JsonValue::Text(socket)),
                            ("unit"@, JsonValue::Text(unit)),
                        ],
                    ),
                ),
            ),
        )
    } else {
        CommandOutputView {
            stdout: seq![
                PrintoutView::Line("Daemon binary: "@ + binary),
                PrintoutView::Line("Socket path: "@ + socket),
                PrintoutView::Line("Installed systemd user service: "@ + unit),
            ],
            ..CommandOutputView::silent()
        }
    }
}

/// What is printed when the daemon has been installed.
pub fn daemon_install(binary: &str, socket: &str, unit: &str, json: bool) -> (r: CommandOutput)
    ensures
        r@ == install_notice(binary@, socket@, unit@, json),
{
    if json {
        let mut f = Fields::new();
        f.put_text("binary", binary);
        f.put_text("socket", socket);
        f.put_text("unit", unit);
        assert(f@ =~= seq![
            ("binary"@, JsonValue::Text(binary@)),
            ("socket"@, JsonValue::Text(socket@)),
            ("unit"@, JsonValue::Text(unit@)),
        ]);
        CommandOutput::of(print_json(f.object()))
    } else {
        let mut r = CommandOutput::silent();
        assert(r@.stdout.len() == r.stdout@.len());
        r.stdout.push(Printout::Line(cat2("Daemon binary: ", binary)));
        r.stdout.push(Printout::Line(cat2("Socket path: ", socket)));
        r.stdout.push(Printout::Line(cat2("Installed systemd user service: ", unit)));
        assert(r@.stdout =~= install_notice(binary@, socket@, unit@, json).stdout);
        r
    }
}

/// What is printed when the daemon has been uninstalled: that its socket is gone,
/// and which unit file.
pub open spec fn uninstall_notice(unit: Seq<char>, json: bool) -> CommandOutputView {
    if json {
        CommandOutputView::of(
            PrintoutView::Pretty(
                enveloped(
                    JsonValue::Object(
                        seq![
                            ("message"@, JsonValue::Text("Daemon socket removed."@)),
                            ("unit"@, JsonValue::Text(unit)),
                        ],
                    ),
                ),
            ),
        )
    } else {
        CommandOutputView {
            stdout: seq![
                PrintoutView::Line("Removed systemd user service: "@ + unit),
                PrintoutView::Line("Daemon socket removed."@),
            ],
            ..CommandOutputView::silent()
        }
    }
}

/// What is printed when the daemon has been uninstalled.
pub fn daemon_uninstall(unit: &str, json: bool) -> (r: CommandOutput)
    ensures
        r@ == uninstall_notice(unit@, json),
{
    let message = "Daemon socket removed.";
    if json {
        let mut f = Fields::new();
        f.put_text("message", message);
        f.put_text("unit", unit);
        assert(f@ =~= seq![
            ("message"@, JsonValue::Text(message@)),
            ("unit"@, JsonValue::Text(unit@)),
        ]);
        CommandOutput::of(print_json(f.object()))
    } else {
        let mut r = CommandOutput::silent();
        assert(r@.stdout.len() == r.stdout@.len());
        r.stdout.push(Printout::Line(cat2("Removed systemd user service: ", unit)));
        r.stdout.push(Printout::Line(message.to_owned()));
        assert(r@.stdout =~= uninstall_notice(unit@, json).stdout);
        r
    }
}

// ---------------------------------------------------------------------------
// Laws
// ---------------------------------------------------------------------------

/// Reads characters within quotes in a unit file up to the closing quote: what
/// they stand for, and what is behind the quote.
pub open spec fn unit_read(s: Seq<char>, argument: bool) -> Option<(Seq<char>, Seq<char>)>
    decreases s.len(),
{
    if s.len() == 0 {
        None
    } else if s[0] == '"' {
        Some((Seq::empty(), s.skip(1)))
    } else if s[0] == '\\' || s[0] == '%' || (argument && s[0] == '$') {
        if s.len() < 2 || (s[0] != '\\' && s[1] != s[0]) {
            None
        } else {
            match unit_read(s.skip(2), argument) {
                Some((inner, rest)) => Some(
                    (
                        seq![
                            if s[0] == '\\' && s[1] == 'n' {
                                '\n'
                            } else {
                                s[1]
                            },
                        ] + inner,
                        rest,
                    ),
                ),
                None => None,
            }
        }
    } else {
        match unit_read(s.skip(1), argument) {
            Some((inner, rest)) => Some((seq![s[0]] + inner, rest)),
            None => None,
        }
    }
}

proof fn lemma_unit_chars_first(s: Seq<char>, argument: bool)
    requires
        s.len() > 0,
    ensures
        unit_chars(s, argument) == unit_char(s[0], argument) + unit_chars(s.skip(1), argument),
    decreases s.len(),
{
    let rest = s.skip(1);
    if s.len() == 1 {
        assert(unit_chars(s.drop_last(), argument) =~= Seq::<char>::empty());
        assert(unit_chars(rest, argument) =~= Seq::<char>::empty());
        assert(unit_chars(s, argument) =~= unit_char(s[0], argument));
        assert(unit_chars(s, argument) =~= unit_char(s[0], argument) + unit_chars(rest, argument));
    } else {
        lemma_unit_chars_first(s.drop_last(), argument);
        assert(s.drop_last().skip(1) =~= rest.drop_last());
        assert(unit_chars(s, argument) =~= unit_char(s[0], argument) + unit_chars(rest, argument));
    }
}

/// Whatever a path holds, a unit file names exactly that path: read between its
/// quotes, the word stands for it, and what follows the word is left alone.
pub proof fn unit_words_are_read_back(s: Seq<char>, argument: bool, rest: Seq<char>)
    ensures
        unit_word(s, argument)[0] == '"',
        unit_read((unit_word(s, argument) + rest).skip(1), argument) == Some((s, rest)),
    decreases s.len(),
{
    reveal_strlit("\"");
    let inner = unit_chars(s, argument) + "\""@ + rest;
    assert((unit_word(s, argument) + rest).skip(1) =~= inner);
    if s.len() == 0 {
        assert(inner.skip(1) =~= rest);
        assert(s =~= Seq::<char>::empty());
    } else {
        let tail = s.skip(1);
        let later = unit_chars(tail, argument) + "\""@ + rest;
        unit_words_are_read_back(tail, argument, rest);
        assert((unit_word(tail, argument) + rest).skip(1) =~= later);
        lemma_unit_chars_first(s, argument);
        let first = unit_char(s[0], argument);
        assert(inner =~= first + later);
        assert(inner.skip(first.len() as int) =~= later);
        assert(seq![s[0]] + tail =~= s);
    }
}

/// The service runs the program that was given, as the daemon, and removes the
/// socket that was given: both are words of their own in the unit file.
pub proof fn units_run_what_was_given(binary: Seq<char>, socket: Seq<char>)
    ensures
        exists|a: Seq<char>, b: Seq<char>, c: Seq<char>|
            unit_text(binary, socket) == #[trigger] (a + "ExecStart="@ + unit_word(binary, false)
                + " daemon serve\n"@ + b + unit_word(socket, true) + c),
{
    let a = "[Unit]\nDescription=AgentSSH daemon\n\n[Service]\n"@;
    let b = "ExecStopPost=-/bin/rm -f "@;
    let c = "\nRestart=on-failure\n\n[Install]\nWantedBy=default.target\n"@;
    reveal_strlit("[Unit]\nDescription=AgentSSH daemon\n\n[Service]\n");
    reveal_strlit("ExecStart=");
    reveal_strlit("[Unit]\nDescription=AgentSSH daemon\n\n[Service]\nExecStart=");
    reveal_strlit(" daemon serve\n");
    reveal_strlit("ExecStopPost=-/bin/rm -f ");
    reveal_strlit(" daemon serve\nExecStopPost=-/bin/rm -f ");
    assert(a + "ExecStart="@
        =~= "[Unit]\nDescription=AgentSSH daemon\n\n[Service]\nExecStart="@);
    assert(" daemon serve\n"@ + b =~= " daemon serve\nExecStopPost=-/bin/rm -f "@);
    assert(unit_text(binary, socket) =~= a + "ExecStart="@ + unit_word(binary, false)
        + " daemon serve\n"@ + b + unit_word(socket, true) + c);
}

} // verus!
