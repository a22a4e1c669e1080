//! File operations: over SFTP, or with commands where SFTP does not work.

use crate::encoding::{
    base64_bytes, base64_encode, base64_is_made_of_groups, base64_is_read_back, base64_text, decode,
    groups_stand_for_themselves, is_base64, is_base64_char,
};
use crate::error::{Error, FileOperation};
use crate::exec::ExecOutput;
use crate::json::{lemma_items, Fields, Json, JsonValue};
use crate::number::{decimal, decimal_text, number_in, parse_u64};
use crate::printing::{
    enveloped, print_json, CommandOutput, CommandOutputView, Printout, PrintoutView,
};
use crate::shell::{quote, quoted};
use crate::text::{
    begins_with, cat2, cat4, chars_of, from_utf8_lossy, has_text, is_white, join_from, joined,
    lemma_nothing_white, lemma_without_white_of_both, line_ends_are_no_part_of_lines, lines,
    lines_of, lossy_text, occurrences_are_replaced, remove_white, replace_text, replaced, same_text,
    split_whitespace, stands_at, strip_prefix, text_between, texts, without_white, words,
};
use vstd::prelude::*;
use vstd::string::*;
use vstd::utf8::encode_utf8;

verus! {

// ---------------------------------------------------------------------------
// Trusted: regular expressions
// ---------------------------------------------------------------------------

/// What becomes of a text when all matches of a regular expression are replaced,
/// or the message that the pattern is none.
pub uninterp spec fn regex_replaced(
    text: Seq<char>,
    pattern: Seq<char>,
    with: Seq<char>,
) -> Result<Seq<char>, Seq<char>>;

/// `regex::Regex::new`, and `Regex::replace_all` with what it makes of the
/// pattern: a function of the text, the pattern and the replacement. Which
/// patterns are regular expressions, and what they match, stays unsaid.
#[verifier::external_body]
fn regex_replace_all(text: &str, pattern: &str, with: &str) -> (r: Result<String, String>)
    ensures
        match r {
            Ok(done) => regex_replaced(text@, pattern@, with@) == Ok::<Seq<char>, Seq<char>>(done@),
            Err(message) => regex_replaced(text@, pattern@, with@) == Err::<Seq<char>, Seq<char>>(
                message@,
            ),
        },
{
    match regex::Regex::new(pattern) {
        Ok(compiled) => Ok(compiled.replace_all(text, with).into_owned()),
        Err(e) => Err(e.to_string()),
    }
}

// ---------------------------------------------------------------------------
// Which way
// ---------------------------------------------------------------------------

/// The ways of carrying out a file operation.
#[derive(Debug, Clone, Copy, PartialEq, Eq, Structural)]
pub enum Route {
    /// Over SFTP, and with commands if that fails.
    SftpThenExec,
    /// Over SFTP only.
    Sftp,
    /// With commands only.
    Exec,
}

/// The route that a method names.
pub open spec fn route_of(method: Seq<char>) -> Option<Route> {
    if method == "auto"@ {
        Some(Route::SftpThenExec)
    } else if method == "sftp"@ {
        Some(Route::Sftp)
    } else if method == "exec"@ {
        Some(Route::Exec)
    } else {
        None
    }
}

/// The route that a method names. Other methods are not supported.
pub fn route(operation: FileOperation, method: &str) -> (r: Result<Route, Error>)
    ensures
        match r {
            Ok(route) => route_of(method@) == Some(route),
            Err(e) => route_of(method@) is None && (e matches Error::UnsupportedMethod(o, m) && o
                == operation && m@ == method@),
        },
{
    if same_text(method, "auto") {
        Ok(Route::SftpThenExec)
    } else if same_text(method, "sftp") {
        Ok(Route::Sftp)
    } else if same_text(method, "exec") {
        Ok(Route::Exec)
    } else {
        Err(Error::UnsupportedMethod(operation, method.to_owned()))
    }
}

/// Whether a command that carried out an operation succeeded.
pub fn command_result(operation: FileOperation, output: &ExecOutput) -> (r: Result<(), Error>)
    ensures
        match r {
            Ok(_) => output.exit_code == 0,
            Err(e) => output.exit_code != 0 && (e matches Error::RemoteCommandFailed(o, stderr) && o
                == operation && stderr@ == output.stderr@),
        },
{
    if output.exit_code != 0 {
        Err(Error::RemoteCommandFailed(operation, output.stderr.clone()))
    } else {
        Ok(())
    }
}

// ---------------------------------------------------------------------------
// Upload and write
// ---------------------------------------------------------------------------

/// How many characters of base64 go into one command.
pub const CHUNK_SIZE: usize = 30_000;

/// The command that decodes `chunk` into the file `remote`, in place of what it
/// holds or behind it.
pub open spec fn decode_command(chunk: Seq<char>, remote: Seq<char>, append: bool) -> Seq<char> {
    "echo "@ + quoted(chunk) + (if append {
        " | base64 -d >> "@
    } else {
        " | base64 -d > "@
    }) + quoted(remote)
}

fn decoding_command(chunk: &str, remote: &str, append: bool) -> (r: String)
    ensures
        r@ == decode_command(chunk@, remote@, append),
{
    let into = if append {
        " | base64 -d >> "
    } else {
        " | base64 -d > "
    };
    cat4("echo ", quote(chunk).as_str(), into, quote(remote).as_str())
}

/// How many commands carry so many characters: at least one.
pub open spec fn chunk_count(len: nat) -> nat {
    if len <= CHUNK_SIZE {
        1
    } else {
        ((len + CHUNK_SIZE - 1) / CHUNK_SIZE as int) as nat
    }
}

/// The part of `encoded` that the command with the number `k` carries.
pub open spec fn chunk(encoded: Seq<char>, k: int) -> Seq<char> {
    encoded.subrange(
        k * CHUNK_SIZE,
        if (k + 1) * CHUNK_SIZE <= encoded.len() {
            (k + 1) * CHUNK_SIZE
        } else {
            encoded.len() as int
        },
    )
}

/// The commands that carry `encoded` into the file `remote`: the first replaces
/// what the file holds, and the others add to it.
pub open spec fn upload_plan(encoded: Seq<char>, remote: Seq<char>) -> Seq<Seq<char>> {
    Seq::new(
        chunk_count(encoded.len()),
        |k: int| decode_command(chunk(encoded, k), remote, k > 0),
    )
}

/// The commands that carry a text in base64 into a file.
pub fn upload_commands_for(encoded: &str, remote: &str) -> (r: Vec<String>)
    ensures
        texts(r@) == upload_plan(encoded@, remote@),
{
    let v = chars_of(encoded);
    let n: usize = v.len();
    let mut out: Vec<String> = Vec::new();
    if n <= CHUNK_SIZE {
        out.push(decoding_command(encoded, remote, false));
        proof {
            assert(chunk(encoded@, 0) =~= encoded@);
            assert(texts(out@) =~= upload_plan(encoded@, remote@));
        }
        return out;
    }
    let mut pos: usize = 0;
    let ghost mut k: int = 0;
    let ghost plan = upload_plan(encoded@, remote@);
    while pos < n
        invariant
            v@ == encoded@,
            n == v@.len(),
            n > CHUNK_SIZE,
            0 <= k,
            pos == if k * CHUNK_SIZE <= n {
                k * CHUNK_SIZE
            } else {
                n as int
            },
            k > 0 ==> (k - 1) * CHUNK_SIZE < n,
            out@.len() == k,
            k <= chunk_count(n as nat),
            forall|j: int|
                0 <= j < k ==> (#[trigger] out@[j])@ == decode_command(
                    chunk(encoded@, j),
                    remote@,
                    j > 0,
                ),
        decreases n - pos,
    {
        let end: usize = if CHUNK_SIZE < n - pos {
            pos + CHUNK_SIZE
        } else {
            n
        };
        let part = text_between(&v, pos, end);
        proof {
            assert(pos == k * CHUNK_SIZE);
            assert((k + 1) * CHUNK_SIZE == k * CHUNK_SIZE + CHUNK_SIZE) by (nonlinear_arith);
            assert(part@ =~= chunk(encoded@, k));
            assert(k + 1 <= chunk_count(n as nat)) by {
                lemma_chunk_bound(n as int, k);
            }
        }
        out.push(decoding_command(part.as_str(), remote, pos > 0));
        proof {
            assert((pos > 0) == (k > 0)) by (nonlinear_arith)
                requires
                    pos == k * CHUNK_SIZE,
                    k >= 0,
            ;
            k = k + 1;
        }
        pos = end;
    }
    proof {
        lemma_chunk_count(n as int, k);
        assert(texts(out@) =~= plan);
    }
    out
}

proof fn lemma_chunk_bound(n: int, k: int)
    requires
        0 <= k,
        k * CHUNK_SIZE < n,
        n > CHUNK_SIZE,
    ensures
        k + 1 <= chunk_count(n as nat),
{
    assert(k + 1 <= (n + CHUNK_SIZE - 1) / CHUNK_SIZE as int) by (nonlinear_arith)
        requires
            0 <= k,
            k * CHUNK_SIZE < n,
            CHUNK_SIZE == 30_000,
    ;
}

proof fn lemma_chunk_count(n: int, k: int)
    requires
        n > CHUNK_SIZE,
        0 < k,
        (k - 1) * CHUNK_SIZE < n,
        k * CHUNK_SIZE >= n,
    ensures
        k == chunk_count(n as nat),
{
    assert(k == (n + CHUNK_SIZE - 1) / CHUNK_SIZE as int) by (nonlinear_arith)
        requires
            0 < k,
            (k - 1) * CHUNK_SIZE < n,
            k * CHUNK_SIZE >= n,
            CHUNK_SIZE == 30_000,
    ;
}

/// The commands that carry bytes into a file.
pub fn upload_commands(data: &[u8], remote: &str) -> (r: Vec<String>)
    ensures
        texts(r@) == upload_plan(base64_text(data@), remote@),
{
    let encoded = base64_encode(data);
    upload_commands_for(encoded.as_str(), remote)
}

/// Whether the command with the number `k` of an upload succeeded.
pub fn upload_result(k: usize, output: &ExecOutput) -> (r: Result<(), Error>)
    ensures
        match r {
            Ok(_) => output.exit_code == 0,
            Err(e) => output.exit_code != 0 && (e matches Error::RemoteCommandFailed(o, stderr) && o
                == (if k == 0 {
                FileOperation::Upload
            } else {
                FileOperation::UploadChunk
            }) && stderr@ == output.stderr@),
        },
{
    let operation = if k == 0 {
        FileOperation::Upload
    } else {
        FileOperation::UploadChunk
    };
    command_result(operation, output)
}

/// The answer to a transfer to the remote side.
pub open spec fn sent_answer(remote: Seq<char>, bytes: nat, method: Seq<char>) -> JsonValue {
    JsonValue::Object(
        seq![
            ("ok"@, JsonValue::Bool(true)),
            ("remote"@, JsonValue::Text(remote)),
            ("bytes"@, JsonValue::Number(bytes as int)),
            ("method"@, JsonValue::Text(method)),
        ],
    )
}

/// The answer to a transfer to the remote side.
pub fn sent_json(remote: &str, bytes: usize, method: &str) -> (r: Json)
    ensures
        r@ == sent_answer(remote@, bytes as nat, method@),
{
    let mut f = Fields::new();
    f.put_bool("ok", true);
    f.put_text("remote", remote);
    f.put_u64("bytes", bytes as u64);
    f.put_text("method", method);
    assert(f@ =~= sent_answer(remote@, bytes as nat, method@)->Object_0);
    f.object()
}

/// The command that writes a text to a file, in place of what it holds or behind
/// it.
pub fn write_command(content: &str, remote: &str, append: bool) -> (r: String)
    ensures
        r@ == decode_command(base64_text(encode_utf8(content@)), remote@, append),
{
    let encoded = base64_encode(content.as_bytes());
    decoding_command(encoded.as_str(), remote, append)
}

/// The answer to a command that wrote a file.
pub open spec fn written_answer(remote: Seq<char>) -> JsonValue {
    JsonValue::Object(
        seq![
            ("ok"@, JsonValue::Bool(true)),
            ("path"@, JsonValue::Text(remote)),
            ("method"@, JsonValue::Text("exec"@)),
        ],
    )
}

/// The outcome of the command that wrote a file.
pub fn exec_write_result(remote: &str, output: &ExecOutput) -> (r: Result<Json, Error>)
    ensures
        match r {
            Ok(answer) => output.exit_code == 0 && answer@ == written_answer(remote@),
            Err(e) => output.exit_code != 0 && (e matches Error::RemoteCommandFailed(o, stderr) && o
                == FileOperation::Write && stderr@ == output.stderr@),
        },
{
    match command_result(FileOperation::Write, output) {
        Err(e) => Err(e),
        Ok(_) => {
            let mut f = Fields::new();
            f.put_bool("ok", true);
            f.put_text("path", remote);
            f.put_text("method", "exec");
            assert(f@ =~= written_answer(remote@)->Object_0);
            Ok(f.object())
        },
    }
}

/// The directory that is made before a file is written, if the file is in one
/// that may have to be made.
pub open spec fn to_make(parent: Option<String>) -> Option<String> {
    match parent {
        Some(p) => if p@.len() > 0 && p@ != "/"@ {
            Some(p)
        } else {
            None
        },
        None => None,
    }
}

/// The directory that is made before a file is written, if the file is in one
/// that may have to be made.
pub fn directory_to_make(parent: Option<String>) -> (r: Option<String>)
    ensures
        r == to_make(parent),
{
    match parent {
        Some(p) => if !p.as_str().is_empty() && !same_text(p.as_str(), "/") {
            Some(p)
        } else {
            None
        },
        None => None,
    }
}

// ---------------------------------------------------------------------------
// Download and read
// ---------------------------------------------------------------------------

/// The command that puts out a file in base64.
pub fn download_command(remote: &str) -> (r: String)
    ensures
        r@ == "base64 "@ + quoted(remote@),
{
    cat2("base64 ", quote(remote).as_str())
}

/// The bytes that a download brought, or what went wrong, where `decoded` is
/// what its output comes down to.
pub open spec fn download_read(
    output: ExecOutput,
    decoded: Result<Seq<u8>, Seq<char>>,
) -> Result<Seq<u8>, Seq<char>> {
    if output.exit_code != 0 {
        Err("exec "@ + FileOperation::Download.spec_name() + " failed: "@ + output.stderr@)
    } else {
        decoded
    }
}

/// The bytes that a download brought, given what its output was decoded to.
pub fn download_given(output: &ExecOutput, decoded: Result<Vec<u8>, String>) -> (r: Result<
    Vec<u8>,
    Error,
>)
    ensures
        match r {
            Ok(bytes) => download_read(*output, decoded_view(decoded)) == Ok::<
                Seq<u8>,
                Seq<char>,
            >(bytes@),
            Err(e) => download_read(*output, decoded_view(decoded)) == Err::<Seq<u8>, Seq<char>>(
                e.text(),
            ),
        },
{
    match command_result(FileOperation::Download, output) {
        Err(e) => Err(e),
        Ok(_) => match decoded {
            Ok(bytes) => Ok(bytes),
            Err(message) => Err(Error::InvalidBase64(message)),
        },
    }
}

/// What was decoded.
pub open spec fn decoded_view(decoded: Result<Vec<u8>, String>) -> Result<Seq<u8>, Seq<char>> {
    match decoded {
        Ok(bytes) => Ok(bytes@),
        Err(message) => Err(message@),
    }
}

/// The bytes that a download brought. The output may be broken into lines, as
/// `base64` does on some systems and not on others.
pub fn downloaded(output: &ExecOutput) -> (r: Result<Vec<u8>, Error>)
    ensures
        match r {
            Ok(bytes) => download_read(*output, base64_bytes(without_white(output.stdout@))) == Ok::<
                Seq<u8>,
                Seq<char>,
            >(bytes@),
            Err(e) => download_read(*output, base64_bytes(without_white(output.stdout@))) == Err::<
                Seq<u8>,
                Seq<char>,
            >(e.text()),
        },
{
    let text = remove_white(output.stdout.as_str());
    let decoded = decode(text.as_str());
    download_given(output, decoded)
}

/// The answer to a transfer from the remote side.
pub open spec fn received_answer(
    local: Seq<char>,
    remote: Seq<char>,
    bytes: nat,
    method: Seq<char>,
) -> JsonValue {
    JsonValue::Object(
        seq![
            ("ok"@, JsonValue::Bool(true)),
            ("local"@, JsonValue::Text(local)),
            ("remote"@, JsonValue::Text(remote)),
            ("bytes"@, JsonValue::Number(bytes as int)),
            ("method"@, JsonValue::Text(method)),
        ],
    )
}

/// The answer to a transfer from the remote side.
pub fn received_json(local: &str, remote: &str, bytes: usize, method: &str) -> (r: Json)
    ensures
        r@ == received_answer(local@, remote@, bytes as nat, method@),
{
    let mut f = Fields::new();
    f.put_bool("ok", true);
    f.put_text("local", local);
    f.put_text("remote", remote);
    f.put_u64("bytes", bytes as u64);
    f.put_text("method", method);
    assert(f@ =~= received_answer(local@, remote@, bytes as nat, method@)->Object_0);
    f.object()
}

/// The answer to a request for the contents of a file.
pub open spec fn contents_answer(remote: Seq<char>, data: Seq<u8>) -> JsonValue {
    JsonValue::Object(
        seq![
            ("ok"@, JsonValue::Bool(true)),
            ("path"@, JsonValue::Text(remote)),
            ("content"@, JsonValue::Text(lossy_text(data))),
            ("bytes"@, JsonValue::Number(data.len() as int)),
        ],
    )
}

/// The answer to a request for the contents of a file.
pub fn contents_json(remote: &str, data: &[u8]) -> (r: Json)
    ensures
        r@ == contents_answer(remote@, data@),
{
    let content = from_utf8_lossy(data);
    let mut f = Fields::new();
    f.put_bool("ok", true);
    f.put_text("path", remote);
    f.put_text("content", content.as_str());
    f.put_u64("bytes", data.len() as u64);
    assert(f@ =~= contents_answer(remote@, data@)->Object_0);
    f.object()
}

// ---------------------------------------------------------------------------
// List
// ---------------------------------------------------------------------------

/// The command that lists a directory.
pub fn ls_command(remote: &str) -> (r: String)
    ensures
        r@ == "ls -la "@ + quoted(remote@),
{
    cat2("ls -la ", quote(remote).as_str())
}

/// A file in a listing.
pub open spec fn ls_entry(
    name: Seq<char>,
    permissions: Seq<char>,
    size: nat,
    is_dir: bool,
) -> JsonValue {
    JsonValue::Object(
        seq![
            ("name"@, JsonValue::Text(name)),
            ("permissions"@, JsonValue::Text(permissions)),
            ("size"@, JsonValue::Number(size as int)),
            ("is_dir"@, JsonValue::Bool(is_dir)),
        ],
    )
}

/// The file that a line of a listing describes: its permissions are the first
/// word, its size the fifth, and its name is made of the words from the ninth
/// on.
pub open spec fn ls_line(line: Seq<char>) -> Option<JsonValue> {
    let w = words(line);
    if w.len() < 9 {
        None
    } else {
        match number_in(w[4], u64::MAX as nat) {
            None => None,
            Some(size) => Some(
                ls_entry(joined(w.skip(8), " "@), w[0], size, begins_with(w[0], "d"@)),
            ),
        }
    }
}

/// The file that a line of a listing describes, if it describes one.
pub fn parse_ls_line(line: &str) -> (r: Option<Json>)
    ensures
        match r {
            Some(entry) => ls_line(line@) == Some(entry@),
            None => ls_line(line@) is None,
        },
{
    let parts = split_whitespace(line);
    let ghost w = words(line@);
    assert(w == texts(parts@) && w.len() == parts@.len());
    assert(forall|i: int| 0 <= i < parts@.len() ==> w[i] == (#[trigger] parts@[i])@);
    if parts.len() < 9 {
        return None;
    }
    let size: u64 = match parse_u64(parts[4].as_str()) {
        Some(size) => size,
        None => return None,
    };
    let name = join_from(&parts, 8, " ");
    let is_dir = strip_prefix(parts[0].as_str(), "d").is_some();
    let mut f = Fields::new();
    f.put_text("name", name.as_str());
    f.put_text("permissions", parts[0].as_str());
    f.put_u64("size", size);
    f.put_bool("is_dir", is_dir);
    assert(f@ =~= ls_entry(name@, w[0], size as nat, is_dir)->Object_0);
    Some(f.object())
}

/// The files that lines describe, in order.
pub open spec fn ls_entries(lines: Seq<Seq<char>>) -> Seq<JsonValue>
    decreases lines.len(),
{
    if lines.len() == 0 {
        Seq::empty()
    } else {
        match ls_line(lines.last()) {
            Some(entry) => ls_entries(lines.drop_last()).push(entry),
            None => ls_entries(lines.drop_last()),
        }
    }
}

/// The lines of a listing behind its first, which holds the total.
pub open spec fn listing_lines(stdout: Seq<char>) -> Seq<Seq<char>> {
    let all = lines_of(stdout);
    if all.len() > 0 {
        all.skip(1)
    } else {
        all
    }
}

/// The answer to a request for a listing.
pub open spec fn listing_answer(
    remote: Seq<char>,
    entries: Seq<JsonValue>,
    method: Seq<char>,
) -> JsonValue {
    JsonValue::Object(
        seq![
            ("ok"@, JsonValue::Bool(true)),
            ("path"@, JsonValue::Text(remote)),
            ("entries"@, JsonValue::List(entries)),
            ("method"@, JsonValue::Text(method)),
        ],
    )
}

fn listing_json(remote: &str, entries: Vec<Json>, method: &str) -> (r: Json)
    ensures
        r@ == listing_answer(remote@, crate::json::list_values(entries@), method@),
{
    let mut f = Fields::new();
    f.put_bool("ok", true);
    f.put_text("path", remote);
    f.put("entries", Json::list(entries));
    f.put_text("method", method);
    assert(f@ =~= listing_answer(
        remote@,
        crate::json::list_values(entries@),
        method@,
    )->Object_0);
    f.object()
}

/// The outcome of the command that listed a directory.
pub fn exec_ls_result(remote: &str, output: &ExecOutput) -> (r: Result<Json, Error>)
    ensures
        match r {
            Ok(answer) => output.exit_code == 0 && answer@ == listing_answer(
                remote@,
                ls_entries(listing_lines(output.stdout@)),
                "exec"@,
            ),
            Err(e) => output.exit_code != 0 && (e matches Error::RemoteCommandFailed(o, stderr) && o
                == FileOperation::Ls && stderr@ == output.stderr@),
        },
{
    if let Err(e) = command_result(FileOperation::Ls, output) {
        return Err(e);
    }
    let all = lines(output.stdout.as_str());
    let ghost listed = listing_lines(output.stdout@);
    let mut entries: Vec<Json> = Vec::new();
    let mut i: usize = 1;
    assert(crate::json::list_values(entries@) =~= ls_entries(listed.take(0)));
    assert(texts(all@).len() == all@.len());
    while i < all.len()
        invariant
            1 <= i,
            texts(all@) == lines_of(output.stdout@),
            texts(all@).len() == all@.len(),
            listed == listing_lines(output.stdout@),
            i <= all@.len() || i == 1,
            crate::json::list_values(entries@) == ls_entries(listed.take(i - 1)),
        decreases all@.len() - i,
    {
        let ghost done = listed.take(i as int);
        assert(done.drop_last() =~= listed.take(i - 1));
        assert(done.last() == texts(all@)[i as int]);
        assert(texts(all@)[i as int] == all@[i as int]@);
        if let Some(entry) = parse_ls_line(all[i].as_str()) {
            assert(crate::json::list_values(entries@.push(entry)) =~= crate::json::list_values(
                entries@,
            ).push(entry@));
            entries.push(entry);
        }
        i += 1;
    }
    assert(listed.take(i - 1) =~= listed);
    Ok(listing_json(remote, entries, "exec"))
}

/// A file as SFTP lists it.
#[derive(Debug)]
pub struct DirEntry {
    pub name: String,
    pub path: String,
    pub is_dir: bool,
    pub size: u64,
    /// When it was last changed, in seconds since 1970, if that is known.
    pub modified: Option<u64>,
}

/// A file as SFTP lists it, in JSON.
pub open spec fn dir_entry(e: DirEntry) -> JsonValue {
    JsonValue::Object(
        seq![
            ("name"@, JsonValue::Text(e.name@)),
            ("path"@, JsonValue::Text(e.path@)),
            ("is_dir"@, JsonValue::Bool(e.is_dir)),
            ("size"@, JsonValue::Number(e.size as int)),
            (
                "modified"@,
                JsonValue::Text(
                    match e.modified {
                        Some(t) => decimal(t as nat),
                        None => Seq::empty(),
                    },
                ),
            ),
        ],
    )
}

/// Files as SFTP lists them, in JSON.
pub open spec fn dir_entries(entries: Seq<DirEntry>) -> Seq<JsonValue> {
    Seq::new(entries.len(), |i: int| dir_entry(entries[i]))
}

fn dir_entry_json(e: &DirEntry) -> (r: Json)
    ensures
        r@ == dir_entry(*e),
{
    let modified = match e.modified {
        Some(t) => decimal_text(t as u128),
        None => {
            proof {
                reveal_strlit("");
                assert(""@ =~= Seq::<char>::empty());
            }
            "".to_owned()
        },
    };
    let mut f = Fields::new();
    f.put_text("name", e.name.as_str());
    f.put_text("path", e.path.as_str());
    f.put_bool("is_dir", e.is_dir);
    f.put_u64("size", e.size);
    f.put_text("modified", modified.as_str());
    assert(f@ =~= dir_entry(*e)->Object_0);
    f.object()
}

/// The answer to a request for a listing over SFTP.
pub fn sftp_ls_json(remote: &str, entries: &Vec<DirEntry>) -> (r: Json)
    ensures
        r@ == listing_answer(
            remote@,
            dir_entries(entries@),
            "sftp"@,
        ),
{
    let mut items: Vec<Json> = Vec::new();
    let mut i: usize = 0;
    while i < entries.len()
        invariant
            i <= entries@.len(),
            items@.len() == i,
            forall|j: int| 0 <= j < i ==> (#[trigger] items@[j])@ == dir_entry(entries@[j]),
        decreases entries@.len() - i,
    {
        items.push(dir_entry_json(&entries[i]));
        i += 1;
    }
    assert(crate::json::list_values(items@) =~= dir_entries(entries@));
    listing_json(remote, items, "sftp")
}

// ---------------------------------------------------------------------------
// Delete
// ---------------------------------------------------------------------------

/// The command that deletes a file, or a directory with all in it.
pub fn delete_command(remote: &str, recursive: bool) -> (r: String)
    ensures
        r@ == (if recursive {
            "rm -rf "@
        } else {
            "rm -f "@
        }) + quoted(remote@),
{
    let command = if recursive {
        "rm -rf "
    } else {
        "rm -f "
    };
    cat2(command, quote(remote).as_str())
}

/// The answer to a deletion.
pub open spec fn deleted_answer(remote: Seq<char>, method: Seq<char>) -> JsonValue {
    JsonValue::Object(
        seq![
            ("ok"@, JsonValue::Bool(true)),
            ("deleted"@, JsonValue::Text(remote)),
            ("method"@, JsonValue::Text(method)),
        ],
    )
}

/// The answer to a deletion.
pub fn deleted_json(remote: &str, method: &str) -> (r: Json)
    ensures
        r@ == deleted_answer(remote@, method@),
{
    let mut f = Fields::new();
    f.put_bool("ok", true);
    f.put_text("deleted", remote);
    f.put_text("method", method);
    assert(f@ =~= deleted_answer(remote@, method@)->Object_0);
    f.object()
}

/// The outcome of the command that deleted a file.
pub fn exec_delete_result(remote: &str, output: &ExecOutput) -> (r: Result<Json, Error>)
    ensures
        match r {
            Ok(answer) => output.exit_code == 0 && answer@ == deleted_answer(remote@, "exec"@),
            Err(e) => output.exit_code != 0 && (e matches Error::RemoteCommandFailed(o, stderr) && o
                == FileOperation::Delete && stderr@ == output.stderr@),
        },
{
    match command_result(FileOperation::Delete, output) {
        Err(e) => Err(e),
        Ok(_) => Ok(deleted_json(remote, "exec")),
    }
}

// ---------------------------------------------------------------------------
// Edit
// ---------------------------------------------------------------------------

/// What a file holds after an edit, where `by_regex` is what the replacement as
/// a regular expression comes to.
pub open spec fn edited(
    content: Seq<char>,
    find: Seq<char>,
    replace: Seq<char>,
    regex: bool,
    by_regex: Result<Seq<char>, Seq<char>>,
) -> Result<Seq<char>, Seq<char>> {
    if regex {
        by_regex
    } else {
        Ok(replaced(content, find, replace))
    }
}

/// What a file holds after an edit with a regular expression, given what the
/// replacement came to.
pub fn edited_by_regex(outcome: Result<String, String>) -> (r: Result<String, Error>)
    ensures
        match outcome {
            Ok(text) => r == Ok::<String, Error>(text),
            Err(message) => r == Err::<String, Error>(Error::InvalidPattern(message)),
        },
{
    match outcome {
        Ok(text) => Ok(text),
        Err(message) => Err(Error::InvalidPattern(message)),
    }
}

/// What a file holds after an edit.
pub fn edit_text(data: &[u8], find: &str, replace: &str, regex: bool) -> (r: Result<String, Error>)
    ensures
        ({
            let content = lossy_text(data@);
            let outcome = edited(
                content,
                find@,
                replace@,
                regex,
                regex_replaced(content, find@, replace@),
            );
            match r {
                Ok(text) => outcome == Ok::<Seq<char>, Seq<char>>(text@),
                Err(e) => outcome == Err::<Seq<char>, Seq<char>>(e.text()),
            }
        }),
{
    let content = from_utf8_lossy(data);
    if regex {
        edited_by_regex(regex_replace_all(content.as_str(), find, replace))
    } else {
        Ok(replace_text(content.as_str(), find, replace))
    }
}

/// The answer to an edit.
pub open spec fn edited_answer(remote: Seq<char>, size: nat) -> JsonValue {
    JsonValue::Object(
        seq![
            ("ok"@, JsonValue::Bool(true)),
            ("path"@, JsonValue::Text(remote)),
            ("size"@, JsonValue::Number(size as int)),
        ],
    )
}

/// The answer to an edit that left the file with so many bytes.
pub fn edited_json(remote: &str, size: usize) -> (r: Json)
    ensures
        r@ == edited_answer(remote@, size as nat),
{
    let mut f = Fields::new();
    f.put_bool("ok", true);
    f.put_text("path", remote);
    f.put_u64("size", size as u64);
    assert(f@ =~= edited_answer(remote@, size as nat)->Object_0);
    f.object()
}

// ---------------------------------------------------------------------------
// One-shot commands
// ---------------------------------------------------------------------------

/// What is printed of a file command that was carried out: the contents of a
/// file as they are, unless JSON is asked for; and the answer of any other.
pub open spec fn once_printed(is_read: bool, json: bool, answer: JsonValue) -> PrintoutView {
    if is_read && !json {
        PrintoutView::Raw(
            match answer.field("content"@) {
                Some(content) => match content.text() {
                    Some(text) => text,
                    None => Seq::empty(),
                },
                None => Seq::empty(),
            },
        )
    } else {
        PrintoutView::Pretty(enveloped(answer))
    }
}

/// What is printed of a file command that was carried out.
pub fn print_once(is_read: bool, json: bool, answer: Json) -> (r: CommandOutput)
    ensures
        r@ == CommandOutputView::of(once_printed(is_read, json, answer@)),
{
    if is_read && !json {
        let text = match answer.get("content") {
            Some(content) => match content.as_str() {
                Some(text) => text.to_owned(),
                None => String::new(),
            },
            None => String::new(),
        };
        CommandOutput::of(Printout::Raw(text))
    } else {
        CommandOutput::of(print_json(answer))
    }
}

// ---------------------------------------------------------------------------
// Laws
// ---------------------------------------------------------------------------

/// The first `k` parts of `encoded`, one behind the other.
pub open spec fn chunks_joined(encoded: Seq<char>, k: nat) -> Seq<char>
    decreases k,
{
    if k == 0 {
        Seq::empty()
    } else {
        chunks_joined(encoded, (k - 1) as nat) + chunk(encoded, k - 1)
    }
}

proof fn lemma_chunks(encoded: Seq<char>, k: nat)
    requires
        k > 0,
        k * CHUNK_SIZE <= encoded.len() || (k - 1) * CHUNK_SIZE < encoded.len() || k == 1,
    ensures
        chunks_joined(encoded, k) == encoded.take(
            if k * CHUNK_SIZE <= encoded.len() {
                k * CHUNK_SIZE
            } else {
                encoded.len() as int
            },
        ),
    decreases k,
{
    if k == 1 {
        assert(chunks_joined(encoded, 0) =~= Seq::<char>::empty());
        assert(chunks_joined(encoded, 1) =~= chunk(encoded, 0));
        assert(chunk(encoded, 0) =~= encoded.take(
            if CHUNK_SIZE <= encoded.len() {
                CHUNK_SIZE as int
            } else {
                encoded.len() as int
            },
        ));
    } else {
        let j = (k - 1) as nat;
        assert(k * CHUNK_SIZE == j * CHUNK_SIZE + CHUNK_SIZE) by (nonlinear_arith)
            requires
                j == k - 1,
        ;
        assert(j * CHUNK_SIZE <= encoded.len());
        lemma_chunks(encoded, j);
        assert(chunks_joined(encoded, k) =~= encoded.take(
            if k * CHUNK_SIZE <= encoded.len() {
                k * CHUNK_SIZE
            } else {
                encoded.len() as int
            },
        ));
    }
}

/// The parts carry the whole text, in order and without gaps.
proof fn lemma_all_chunks(encoded: Seq<char>)
    ensures
        chunks_joined(encoded, chunk_count(encoded.len())) == encoded,
        chunk_count(encoded.len()) > 0,
        chunk_count(encoded.len()) > 1 ==> (chunk_count(encoded.len()) - 1) * CHUNK_SIZE
            < encoded.len(),
        chunk_count(encoded.len()) * CHUNK_SIZE >= encoded.len(),
{
    let n = encoded.len() as int;
    let k = chunk_count(encoded.len());
    if n <= CHUNK_SIZE {
        lemma_chunks(encoded, 1);
        assert(encoded.take(n) =~= encoded);
    } else {
        assert(k > 0 && (k - 1) * CHUNK_SIZE < n && k * CHUNK_SIZE >= n) by (nonlinear_arith)
            requires
                n > CHUNK_SIZE,
                k == (n + CHUNK_SIZE - 1) / CHUNK_SIZE as int,
                CHUNK_SIZE == 30_000,
        ;
        lemma_chunks(encoded, k);
        assert(encoded.take(n) =~= encoded);
    }
}

/// Where the piece of the data ends that the commands before the number `k`
/// carry: three bytes for every four characters.
pub open spec fn piece_end(data: Seq<u8>, k: int) -> int {
    if k * (CHUNK_SIZE / 4 * 3) <= data.len() {
        k * (CHUNK_SIZE / 4 * 3)
    } else {
        data.len() as int
    }
}

/// The piece of the data that the command with the number `k` carries.
pub open spec fn piece(data: Seq<u8>, k: int) -> Seq<u8> {
    data.subrange(piece_end(data, k), piece_end(data, k + 1))
}

/// The first `k` pieces of the data, one behind the other.
pub open spec fn pieces_joined(data: Seq<u8>, k: nat) -> Seq<u8>
    decreases k,
{
    if k == 0 {
        Seq::empty()
    } else {
        pieces_joined(data, (k - 1) as nat) + piece(data, k - 1)
    }
}

proof fn lemma_pieces(data: Seq<u8>, k: nat)
    ensures
        0 <= piece_end(data, k as int) <= data.len(),
        pieces_joined(data, k) == data.take(piece_end(data, k as int)),
    decreases k,
{
    let size: int = CHUNK_SIZE / 4 * 3;
    assert(0 <= k * size) by (nonlinear_arith)
        requires
            size == 22_500,
    ;
    if k == 0 {
        assert(k * size == 0) by (nonlinear_arith)
            requires
                k == 0,
        ;
        assert(data.take(0) =~= Seq::<u8>::empty());
        assert(pieces_joined(data, k) =~= Seq::<u8>::empty());
    } else {
        let j = (k - 1) as nat;
        lemma_pieces(data, j);
        assert(k * size == j * size + size) by (nonlinear_arith)
            requires
                j == k - 1,
        ;
        assert(data.take(piece_end(data, k as int)) =~= data.take(piece_end(data, j as int))
            + piece(data, j as int));
    }
}

proof fn lemma_chunk_decodes(data: Seq<u8>, k: int)
    requires
        0 <= k < chunk_count(base64_text(data).len()),
    ensures
        base64_bytes(chunk(base64_text(data), k)) == Ok::<Seq<u8>, Seq<char>>(piece(data, k)),
{
    let encoded = base64_text(data);
    let n = data.len() as int;
    let size: int = CHUNK_SIZE / 4 * 3;
    let i = k * 7_500;
    let j = (k + 1) * 7_500;
    lemma_all_chunks(encoded);
    base64_is_made_of_groups(data);
    assert(k * CHUNK_SIZE == 4 * i && (k + 1) * CHUNK_SIZE == 4 * j && k * size == 3 * i && (k + 1)
        * size == 3 * j && 0 <= i <= j) by (nonlinear_arith)
        requires
            0 <= k,
            i == k * 7_500,
            j == (k + 1) * 7_500,
            size == 22_500,
            CHUNK_SIZE == 30_000,
    ;
    assert(3 * i <= n) by {
        if k > 0 {
            let last = chunk_count(encoded.len()) - 1;
            assert(k * CHUNK_SIZE <= last * CHUNK_SIZE) by (nonlinear_arith)
                requires
                    0 < k <= last,
            ;
            assert(4 * i < encoded.len());
        }
    }
    groups_stand_for_themselves(data, i, j);
    assert(chunk(encoded, k) == base64_text(piece(data, k)));
    base64_is_read_back(piece(data, k));
}

/// The commands of an upload carry the whole file: what they carry makes up the
/// text, in order and without gaps, and each part can be decoded for itself,
/// into a piece of the data. The pieces, one behind the other, are the data.
pub proof fn upload_carries_everything(data: Seq<u8>)
    ensures
        ({
            let encoded = base64_text(data);
            let n = chunk_count(encoded.len());
            &&& chunks_joined(encoded, n) == encoded
            &&& forall|k: int|
                0 <= k < n ==> base64_bytes(#[trigger] chunk(encoded, k)) == Ok::<
                    Seq<u8>,
                    Seq<char>,
                >(piece(data, k))
            &&& pieces_joined(data, n) == data
        }),
{
    let encoded = base64_text(data);
    let n = chunk_count(encoded.len());
    lemma_all_chunks(encoded);
    base64_is_made_of_groups(data);
    lemma_pieces(data, n);
    assert forall|k: int| 0 <= k < n implies base64_bytes(#[trigger] chunk(encoded, k)) == Ok::<
        Seq<u8>,
        Seq<char>,
    >(piece(data, k)) by {
        lemma_chunk_decodes(data, k);
    }
    let size: int = CHUNK_SIZE / 4 * 3;
    assert(4 * (n * size) == 3 * (n * CHUNK_SIZE)) by (nonlinear_arith)
        requires
            size == 22_500,
            CHUNK_SIZE == 30_000,
    ;
    assert(n * size >= data.len());
    assert(data.take(data.len() as int) =~= data);
}

/// Whatever a remote name holds, the commands name exactly that file: a shell
/// reads the name in them as it was given.
pub proof fn commands_name_the_file(remote: Seq<char>)
    ensures
        crate::shell::read_by_shell(quoted(remote), false) == Some(remote),
{
    crate::shell::quoted_text_is_literal(remote);
}

/// A file that the remote side puts out in base64 is downloaded as it was
/// uploaded, wherever the lines of the output are broken.
pub proof fn download_gives_back_upload(data: Seq<u8>, output: ExecOutput)
    requires
        output.exit_code == 0,
        without_white(output.stdout@) == base64_text(data),
    ensures
        download_read(output, base64_bytes(without_white(output.stdout@))) == Ok::<
            Seq<u8>,
            Seq<char>,
        >(data),
{
    base64_is_read_back(data);
}

/// A text in base64 is the same one however it is broken into two lines, and so
/// into any number of them.
pub proof fn line_breaks_do_not_matter(a: Seq<char>, b: Seq<char>, rest: Seq<char>)
    requires
        is_base64(a),
        is_base64(b),
    ensures
        without_white(a + b) == a + b,
        without_white(a + "\n"@ + b + "\n"@) == a + b,
        without_white(a + "\n"@ + rest) == a + without_white(rest),
{
    reveal_strlit("\n");
    assert(without_white("\n"@.drop_last()) =~= Seq::<char>::empty());
    assert(without_white("\n"@) =~= Seq::<char>::empty());
    assert forall|i: int| 0 <= i < a.len() implies !is_white(#[trigger] a[i]) by {
        assert(is_base64_char(a[i]));
    }
    assert forall|i: int| 0 <= i < b.len() implies !is_white(#[trigger] b[i]) by {
        assert(is_base64_char(b[i]));
    }
    lemma_nothing_white(a);
    lemma_nothing_white(b);
    lemma_without_white_of_both(a, b);
    lemma_without_white_of_both(a, "\n"@);
    assert(without_white(a + "\n"@) =~= a);
    lemma_without_white_of_both(a + "\n"@, rest);
    lemma_without_white_of_both(a + "\n"@, b);
    lemma_without_white_of_both(a + "\n"@ + b, "\n"@);
    assert(without_white(a + "\n"@ + b + "\n"@) =~= a + b);
}

/// An edit leaves a file alone that does not hold what it looks for.
pub proof fn edits_change_only_what_they_find(content: Seq<char>, find: Seq<char>, replace: Seq<char>)
    requires
        find.len() > 0,
        !has_text(content, find),
    ensures
        replaced(content, find, replace) == content,
    decreases content.len(),
{
    if content.len() > 0 {
        if begins_with(content, find) {
            assert(content.subrange(0, find.len() as int) =~= content.take(find.len() as int));
            assert(stands_at(content, 0, find));
        }
        let rest = content.drop_first();
        assert(!has_text(rest, find)) by {
            if has_text(rest, find) {
                let i = choose|i: int| stands_at(rest, i, find);
                assert(content.subrange(i + 1, i + 1 + find.len()) =~= rest.subrange(
                    i,
                    i + find.len(),
                ));
                assert(stands_at(content, i + 1, find));
            }
        }
        edits_change_only_what_they_find(rest, find, replace);
        assert(seq![content[0]] + rest =~= content);
    }
    assert(replaced(content, find, replace) =~= content);
}

/// An edit that puts back what it finds leaves a file as it is.
pub proof fn edits_can_put_back(content: Seq<char>, find: Seq<char>)
    ensures
        replaced(content, find, find) == content,
    decreases content.len(),
{
    if content.len() > 0 {
        let rest = content.drop_first();
        if find.len() > 0 && begins_with(content, find) {
            edits_can_put_back(content.skip(find.len() as int), find);
            assert(find + content.skip(find.len() as int) =~= content);
        } else {
            edits_can_put_back(rest, find);
            assert(find.len() == 0 ==> find + seq![content[0]] =~= seq![content[0]]);
            assert(seq![content[0]] + rest =~= content);
        }
    }
    assert(replaced(content, find, find) =~= content);
}

/// What answers to file commands say: where, how much, and by which way.
pub proof fn file_answers_say_what_was_done(
    local: Seq<char>,
    remote: Seq<char>,
    bytes: nat,
    method: Seq<char>,
    data: Seq<u8>,
)
    ensures
        ({
            let sent = sent_answer(remote, bytes, method);
            &&& sent is Object
            &&& sent->Object_0.contains(("ok"@, JsonValue::Bool(true)))
            &&& sent->Object_0.contains(("remote"@, JsonValue::Text(remote)))
            &&& sent->Object_0.contains(("bytes"@, JsonValue::Number(bytes as int)))
            &&& sent->Object_0.contains(("method"@, JsonValue::Text(method)))
        }),
        ({
            let received = received_answer(local, remote, bytes, method);
            &&& received is Object
            &&& received->Object_0.contains(("ok"@, JsonValue::Bool(true)))
            &&& received->Object_0.contains(("local"@, JsonValue::Text(local)))
            &&& received->Object_0.contains(("remote"@, JsonValue::Text(remote)))
            &&& received->Object_0.contains(("bytes"@, JsonValue::Number(bytes as int)))
            &&& received->Object_0.contains(("method"@, JsonValue::Text(method)))
        }),
        ({
            let contents = contents_answer(remote, data);
            &&& contents is Object
            &&& contents->Object_0.contains(("path"@, JsonValue::Text(remote)))
            &&& contents->Object_0.contains(("content"@, JsonValue::Text(lossy_text(data))))
            &&& contents->Object_0.contains(("bytes"@, JsonValue::Number(data.len() as int)))
        }),
        ({
            let deleted = deleted_answer(remote, method);
            &&& deleted is Object
            &&& deleted->Object_0.contains(("deleted"@, JsonValue::Text(remote)))
            &&& deleted->Object_0.contains(("method"@, JsonValue::Text(method)))
        }),
        ({
            let edited = edited_answer(remote, bytes);
            &&& edited is Object
            &&& edited->Object_0.contains(("path"@, JsonValue::Text(remote)))
            &&& edited->Object_0.contains(("size"@, JsonValue::Number(bytes as int)))
        }),
{
    lemma_items(sent_answer(remote, bytes, method)->Object_0);
    let s = sent_answer(remote, bytes, method)->Object_0;
    assert(s[0].0 == "ok"@ && s[1].0 == "remote"@ && s[2].0 == "bytes"@ && s[3].0 == "method"@);
    let r = received_answer(local, remote, bytes, method)->Object_0;
    lemma_items(r);
    assert(r[0].0 == "ok"@ && r[1].0 == "local"@ && r[2].0 == "remote"@ && r[3].0 == "bytes"@
        && r[4].0 == "method"@);
    let c = contents_answer(remote, data)->Object_0;
    lemma_items(c);
    assert(c[1].0 == "path"@ && c[2].0 == "content"@ && c[3].0 == "bytes"@);
    let d = deleted_answer(remote, method)->Object_0;
    lemma_items(d);
    assert(d[1].0 == "deleted"@ && d[2].0 == "method"@);
    let e = edited_answer(remote, bytes)->Object_0;
    lemma_items(e);
    assert(e[1].0 == "path"@ && e[2].0 == "size"@);
}

/// A line of a listing describes a file by its words: the permissions come
/// first, the size is the fifth, and the name begins with the ninth and goes on
/// to the end. A directory is told by the `d` before its permissions. A line
/// with fewer words, or without a size, describes none.
pub proof fn listing_lines_describe_files(line: Seq<char>)
    ensures
        ({
            let w = words(line);
            &&& w.len() < 9 ==> ls_line(line) is None
            &&& w.len() >= 9 && number_in(w[4], u64::MAX as nat) is None ==> ls_line(line) is None
            &&& w.len() >= 9 && number_in(w[4], u64::MAX as nat) is Some ==> {
                &&& ls_line(line) is Some
                &&& ls_line(line)->0 is Object
                &&& ls_line(line)->0->Object_0.contains(
                    ("name"@, JsonValue::Text(joined(w.subrange(8, w.len() as int), seq![' ']))),
                )
                &&& ls_line(line)->0->Object_0.contains(("permissions"@, JsonValue::Text(w[0])))
                &&& ls_line(line)->0->Object_0.contains(
                    ("size"@, JsonValue::Number(number_in(w[4], u64::MAX as nat)->0 as int)),
                )
                &&& ls_line(line)->0->Object_0.contains(
                    ("is_dir"@, JsonValue::Bool(w[0].len() > 0 && w[0][0] == 'd')),
                )
            }
        }),
{
    reveal_strlit(" ");
    reveal_strlit("d");
    assert(" "@ =~= seq![' ']);
    assert("d"@ =~= seq!['d']);
    let w = words(line);
    if w.len() >= 9 && number_in(w[4], u64::MAX as nat) is Some {
        assert(w.skip(8) =~= w.subrange(8, w.len() as int));
        assert(begins_with(w[0], "d"@) == (w[0].len() > 0 && w[0][0] == 'd')) by {
            if w[0].len() > 0 && w[0][0] == 'd' {
                assert(w[0].take(1) =~= "d"@);
            }
            if begins_with(w[0], "d"@) {
                assert(w[0].take(1)[0] == 'd');
            }
        }
        let f = ls_line(line)->0->Object_0;
        lemma_items(f);
        assert(f[0].0 == "name"@ && f[1].0 == "permissions"@ && f[2].0 == "size"@ && f[3].0
            == "is_dir"@);
    }
}

/// A listing holds the files of its lines, in order and but for the first line,
/// which says how much there is in all.
pub proof fn listings_are_read_line_by_line(
    a: Seq<Seq<char>>,
    line: Seq<char>,
    total: Seq<char>,
    rest: Seq<char>,
)
    requires
        !total.contains('\n'),
        total.len() == 0 || total.last() != '\r',
    ensures
        ls_entries(Seq::empty()).len() == 0,
        ls_line(line) is Some ==> ls_entries(a.push(line)) == ls_entries(a).push(ls_line(line)->0),
        ls_line(line) is None ==> ls_entries(a.push(line)) == ls_entries(a),
        listing_lines(total.push('\n') + rest) == lines_of(rest),
{
    assert(a.push(line).drop_last() =~= a);
    line_ends_are_no_part_of_lines(total, rest);
    assert((seq![total] + lines_of(rest)).skip(1) =~= lines_of(rest));
}

/// A file that is listed over SFTP is described by what SFTP says of it.
pub proof fn entries_describe_files(entries: Seq<DirEntry>, i: int)
    requires
        0 <= i < entries.len(),
    ensures
        ({
            let e = entries[i];
            let fields = dir_entries(entries)[i]->Object_0;
            &&& dir_entries(entries).len() == entries.len()
            &&& dir_entries(entries)[i] is Object
            &&& fields.contains(("name"@, JsonValue::Text(e.name@)))
            &&& fields.contains(("path"@, JsonValue::Text(e.path@)))
            &&& fields.contains(("is_dir"@, JsonValue::Bool(e.is_dir)))
            &&& fields.contains(("size"@, JsonValue::Number(e.size as int)))
            &&& e.modified is Some ==> fields.contains(
                ("modified"@, JsonValue::Text(decimal(e.modified->0 as nat))),
            )
            &&& e.modified is None ==> fields.contains(("modified"@, JsonValue::Text(Seq::empty())))
        }),
{
    let f = dir_entries(entries)[i]->Object_0;
    lemma_items(f);
    assert(f[0].0 == "name"@ && f[1].0 == "path"@ && f[2].0 == "is_dir"@ && f[3].0 == "size"@
        && f[4].0 == "modified"@);
}

/// A file is edited as a text: all that is looked for gives way to the
/// replacement, one occurrence after the other; or the regular expression
/// decides where one is asked for.
pub proof fn edits_replace_everything(
    a: Seq<char>,
    find: Seq<char>,
    b: Seq<char>,
    replace: Seq<char>,
    by_regex: Result<Seq<char>, Seq<char>>,
)
    requires
        find.len() > 0,
        forall|i: int|
            0 <= i < a.len() ==> #[trigger] (a + find + b).subrange(i, i + find.len()) != find,
    ensures
        edited(b, find, replace, false, by_regex) is Ok,
        edited(a + find + b, find, replace, false, by_regex) == Ok::<Seq<char>, Seq<char>>(
            a + replace + edited(b, find, replace, false, by_regex)->Ok_0,
        ),
        edited(a, find, replace, true, by_regex) == by_regex,
{
    occurrences_are_replaced(a, find, b, replace);
}

/// The commands of an upload: each takes its part of the text through `base64 -d`
/// into the file, the first in place of what the file holds and the others
/// behind it. There are as many as it takes at 30000 characters each.
pub proof fn uploads_replace_and_then_add(encoded: Seq<char>, remote: Seq<char>, k: int)
    requires
        0 <= k < upload_plan(encoded, remote).len(),
    ensures
        upload_plan(encoded, remote)[k] == "echo "@ + quoted(
            encoded.subrange(
                30_000 * k,
                if 30_000 * (k + 1) < encoded.len() {
                    30_000 * (k + 1)
                } else {
                    encoded.len() as int
                },
            ),
        ) + (if k == 0 {
            " | base64 -d > "@
        } else {
            " | base64 -d >> "@
        }) + quoted(remote),
        upload_plan(encoded, remote).len() > 0,
        upload_plan(encoded, remote).len() > 1 ==> 30_000 * (upload_plan(encoded, remote).len() - 1)
            < encoded.len(),
        30_000 * upload_plan(encoded, remote).len() >= encoded.len(),
{
    lemma_all_chunks(encoded);
    let n = chunk_count(encoded.len());
    assert(k * CHUNK_SIZE == 30_000 * k && (k + 1) * CHUNK_SIZE == 30_000 * (k + 1)) by (
        nonlinear_arith)
        requires
            CHUNK_SIZE == 30_000,
    ;
    assert((n - 1) * CHUNK_SIZE == 30_000 * (n - 1) && n * CHUNK_SIZE == 30_000 * n) by (
        nonlinear_arith)
        requires
            CHUNK_SIZE == 30_000,
    ;
}

/// What a file command prints: the contents of a file as they are, or the answer
/// in its envelope.
pub proof fn files_are_shown_as_they_are(remote: Seq<char>, data: Seq<u8>, answer: JsonValue)
    ensures
        once_printed(true, false, contents_answer(remote, data)) == PrintoutView::Raw(
            lossy_text(data),
        ),
        once_printed(true, true, answer) == PrintoutView::Pretty(enveloped(answer)),
        once_printed(false, false, answer) == PrintoutView::Pretty(enveloped(answer)),
        once_printed(false, true, answer) == PrintoutView::Pretty(enveloped(answer)),
{
    reveal_strlit("ok");
    reveal_strlit("path");
    reveal_strlit("content");
    let f = contents_answer(remote, data);
    assert("ok"@.len() == 2 && "path"@.len() == 4 && "content"@.len() == 7);
    assert(f.field("content"@) == Some(JsonValue::Text(lossy_text(data)))) by {
        reveal_with_fuel(crate::json::field_in, 5);
    }
}

/// The directory of a file is made before the file is, but for the root, which
/// is always there, and for none.
pub proof fn directories_are_made_first(parent: String)
    ensures
        parent@ == seq!['/'] ==> to_make(Some(parent)) is None,
        parent@.len() == 0 ==> to_make(Some(parent)) is None,
        parent@.len() > 0 && parent@ != seq!['/'] ==> to_make(Some(parent)) == Some(parent),
        to_make(None) is None,
{
    reveal_strlit("/");
    assert("/"@ =~= seq!['/']);
}

/// A download that failed brings nothing but what was said on the error channel.
pub proof fn failed_downloads_bring_nothing(
    output: ExecOutput,
    decoded: Result<Seq<u8>, Seq<char>>,
)
    ensures
        output.exit_code != 0 ==> download_read(output, decoded) == Err::<Seq<u8>, Seq<char>>(
            "exec "@ + "download"@ + " failed: "@ + output.stderr@,
        ),
        output.exit_code == 0 ==> download_read(output, decoded) == decoded,
{
}

/// The ways are named by their methods, and nothing else names one.
pub proof fn methods_name_ways(method: Seq<char>)
    ensures
        method == "auto"@ ==> route_of(method) == Some(Route::SftpThenExec),
        method == "sftp"@ ==> route_of(method) == Some(Route::Sftp),
        method == "exec"@ ==> route_of(method) == Some(Route::Exec),
        method != "auto"@ && method != "sftp"@ && method != "exec"@ ==> route_of(method) is None,
{
    reveal_strlit("auto");
    reveal_strlit("sftp");
    reveal_strlit("exec");
    assert("auto"@[0] == 'a' && "sftp"@[0] == 's' && "exec"@[0] == 'e');
}

/// A listing is answered with the directory, its files and the way they were
/// listed; a text that was written, with its file.
pub proof fn listings_and_writes_are_answered(
    remote: Seq<char>,
    entries: Seq<JsonValue>,
    method: Seq<char>,
)
    ensures
        ({
            let fields = listing_answer(remote, entries, method)->Object_0;
            &&& fields.contains(("ok"@, JsonValue::Bool(true)))
            &&& fields.contains(("path"@, JsonValue::Text(remote)))
            &&& fields.contains(("entries"@, JsonValue::List(entries)))
            &&& fields.contains(("method"@, JsonValue::Text(method)))
        }),
        written_answer(remote)->Object_0.contains(("path"@, JsonValue::Text(remote))),
        written_answer(remote)->Object_0.contains(("ok"@, JsonValue::Bool(true))),
{
    let f = listing_answer(remote, entries, method)->Object_0;
    let g = written_answer(remote)->Object_0;
    lemma_items(f);
    lemma_items(g);
    assert(f[0].0 == "ok"@ && f[1].0 == "path"@ && f[2].0 == "entries"@ && f[3].0 == "method"@);
    assert(g[0].0 == "ok"@ && g[1].0 == "path"@);
}

} // verus!
