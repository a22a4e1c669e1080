//! Saved connection profiles.

use crate::cli::{ConnectArgs, ConnectView, ProfileAction};
use crate::error::Error;
use crate::json::{lemma_items, Fields, Json, JsonValue};
use crate::number::{decimal, decimal_text, number_in, parse_u16};
use crate::printing::{
    emit_message, enveloped, message_printed, print_json, printout_views, CommandOutput,
    CommandOutputView, Printout, PrintoutView,
};
use crate::sorted::{
    in_order, lemma_in_order, lemma_viewed_insert, lemma_viewed_remove, viewed, SortedMap,
};
use crate::text::{cat4, lines, lines_of, text_of, texts, trim, trimmed};
use crate::util::DEFAULT_PORT;
use vstd::prelude::*;
use vstd::string::*;

verus! {

broadcast use {lemma_viewed_insert, lemma_viewed_remove};

/// The saved profiles, by name.
#[derive(Debug)]
pub struct ProfileStore {
    pub profiles: SortedMap<ConnectArgs>,
}

impl View for ProfileStore {
    type V = Map<Seq<char>, ConnectView>;

    open spec fn view(&self) -> Map<Seq<char>, ConnectView> {
        viewed(self.profiles@)
    }
}

impl ProfileStore {
    /// No profiles.
    pub fn new() -> (r: Self)
        ensures
            r@ == Map::<Seq<char>, ConnectView>::empty(),
    {
        let r = ProfileStore { profiles: SortedMap::new() };
        assert(r@ =~= Map::<Seq<char>, ConnectView>::empty());
        r
    }
}

// ---------------------------------------------------------------------------
// Profiles in JSON and in words
// ---------------------------------------------------------------------------

/// A text, or null where there is none.
pub open spec fn text_or_null(s: Option<Seq<char>>) -> JsonValue {
    match s {
        Some(s) => JsonValue::Text(s),
        None => JsonValue::Null,
    }
}

/// A profile in JSON.
pub open spec fn profile_value(p: ConnectView) -> JsonValue {
    JsonValue::Object(
        seq![
            ("profile"@, text_or_null(p.profile)),
            ("host"@, text_or_null(p.host)),
            (
                "port"@,
                match p.port {
                    Some(n) => JsonValue::Number(n as int),
                    None => JsonValue::Null,
                },
            ),
            ("username"@, text_or_null(p.username)),
            ("password"@, text_or_null(p.password)),
            ("private_key"@, text_or_null(p.private_key)),
            ("passphrase"@, text_or_null(p.passphrase)),
            (
                "ready_timeout_ms"@,
                match p.ready_timeout_ms {
                    Some(n) => JsonValue::Number(n as int),
                    None => JsonValue::Null,
                },
            ),
            (
                "retry"@,
                match p.retry {
                    Some(n) => JsonValue::Number(n as int),
                    None => JsonValue::Null,
                },
            ),
            (
                "retry_delay_ms"@,
                match p.retry_delay_ms {
                    Some(n) => JsonValue::Number(n as int),
                    None => JsonValue::Null,
                },
            ),
        ],
    )
}

fn optional_text(s: &Option<String>) -> (r: Json)
    ensures
        r@ == text_or_null(text_of(*s)),
{
    match s {
        Some(s) => Json::text(s.as_str()),
        None => Json::Null,
    }
}

fn optional_u64(n: Option<u64>) -> (r: Json)
    ensures
        r@ == match n {
            Some(n) => JsonValue::Number(n as int),
            None => JsonValue::Null,
        },
{
    match n {
        Some(n) => Json::Uint(n),
        None => Json::Null,
    }
}

/// A profile in JSON.
pub fn profile_json(p: &ConnectArgs) -> (r: Json)
    ensures
        r@ == profile_value(p@),
{
    let port = match p.port {
        Some(n) => Json::Uint(n as u64),
        None => Json::Null,
    };
    let retry = match p.retry {
        Some(n) => Json::Uint(n as u64),
        None => Json::Null,
    };
    let mut f = Fields::new();
    f.put("profile", optional_text(&p.profile));
    f.put("host", optional_text(&p.host));
    f.put("port", port);
    f.put("username", optional_text(&p.username));
    f.put("password", optional_text(&p.password));
    f.put("private_key", optional_text(&p.private_key));
    f.put("passphrase", optional_text(&p.passphrase));
    f.put("ready_timeout_ms", optional_u64(p.ready_timeout_ms));
    f.put("retry", retry);
    f.put("retry_delay_ms", optional_u64(p.retry_delay_ms));
    assert(f@ =~= profile_value(p@)->Object_0);
    f.object()
}

/// All profiles in JSON, in the order of their names.
pub open spec fn profiles_value(store: Map<Seq<char>, ConnectView>) -> JsonValue {
    JsonValue::Object(
        in_order(store.dom()).map_values(|name: Seq<char>| (name, profile_value(store[name]))),
    )
}

/// All profiles in JSON, in the order of their names.
pub fn profiles_json(store: &ProfileStore) -> (r: Json)
    ensures
        r@ == profiles_value(store@),
{
    let keys = store.profiles.keys();
    let ghost order = texts(keys@);
    let ghost m = store@;
    let mut f = Fields::new();
    let mut i: usize = 0;
    while i < keys.len()
        invariant
            i <= keys@.len(),
            order == texts(keys@),
            order.to_set() == store.profiles@.dom(),
            m == store@,
            f@ == order.take(i as int).map_values(|name: Seq<char>| (name, profile_value(m[name]))),
        decreases keys@.len() - i,
    {
        assert(order[i as int] == keys@[i as int]@);
        assert(order.to_set().contains(order[i as int]));
        match store.profiles.get(keys[i].as_str()) {
            Some(p) => f.put(keys[i].as_str(), profile_json(p)),
            None => {
                assert(false);
            },
        }
        i += 1;
        assert(f@ =~= order.take(i as int).map_values(
            |name: Seq<char>| (name, profile_value(m[name])),
        ));
    }
    proof {
        assert(order.take(i as int) =~= order);
        assert(m.dom() =~= store.profiles@.dom());
    }
    f.object()
}

/// A text, or the empty text where there is none.
pub open spec fn or_empty(s: Option<Seq<char>>) -> Seq<char> {
    match s {
        Some(s) => s,
        None => Seq::empty(),
    }
}

/// A profile in a listing: its name, the user, the host and the port.
pub open spec fn profile_line(name: Seq<char>, p: ConnectView) -> Seq<char> {
    name + "\t"@ + (or_empty(p.username) + "@"@ + or_empty(p.host) + ":"@) + decimal(
        crate::connection::port_of(p) as nat,
    )
}

fn empty_or(s: &Option<String>) -> (r: String)
    ensures
        r@ == or_empty(text_of(*s)),
{
    match s {
        Some(s) => s.clone(),
        None => String::new(),
    }
}

fn listed_profile(name: &str, p: &ConnectArgs) -> (r: String)
    ensures
        r@ == profile_line(name@, p@),
{
    let port: u16 = match p.port {
        Some(port) => port,
        None => DEFAULT_PORT,
    };
    let address = cat4(
        empty_or(&p.username).as_str(),
        "@",
        empty_or(&p.host).as_str(),
        ":",
    );
    cat4(name, "\t", address.as_str(), decimal_text(port as u128).as_str())
}

/// What a listing of profiles prints.
pub open spec fn profiles_printed(
    store: Map<Seq<char>, ConnectView>,
    json: bool,
) -> CommandOutputView {
    if json {
        CommandOutputView::of(PrintoutView::Pretty(enveloped(profiles_value(store))))
    } else if in_order(store.dom()).len() == 0 {
        CommandOutputView::of(PrintoutView::Line("No SSH profiles."@))
    } else {
        CommandOutputView {
            stdout: in_order(store.dom()).map_values(
                |name: Seq<char>| PrintoutView::Line(profile_line(name, store[name])),
            ),
            stderr: Seq::empty(),
            exit_code: 0,
        }
    }
}

fn print_profiles(store: &ProfileStore, json: bool) -> (r: CommandOutput)
    ensures
        r@ == profiles_printed(store@, json),
{
    if json {
        return CommandOutput::of(print_json(profiles_json(store)));
    }
    let keys = store.profiles.keys();
    let ghost order = texts(keys@);
    let ghost m = store@;
    proof {
        assert(m.dom() =~= store.profiles@.dom());
        assert(order.len() == keys@.len());
    }
    if keys.len() == 0 {
        return CommandOutput::of(Printout::Line("No SSH profiles.".to_owned()));
    }
    let mut r = CommandOutput::silent();
    let mut i: usize = 0;
    assert(order.take(0) =~= Seq::empty());
    while i < keys.len()
        invariant
            i <= keys@.len(),
            order == texts(keys@),
            order.to_set() == store.profiles@.dom(),
            m == store@,
            r@.stdout == order.take(i as int).map_values(
                |name: Seq<char>| PrintoutView::Line(profile_line(name, m[name])),
            ),
            r@.stderr == Seq::<char>::empty(),
            r@.exit_code == 0,
        decreases keys@.len() - i,
    {
        assert(order[i as int] == keys@[i as int]@);
        assert(order.to_set().contains(order[i as int]));
        match store.profiles.get(keys[i].as_str()) {
            Some(p) => {
                let line = Printout::Line(listed_profile(keys[i].as_str(), p));
                assert(printout_views(r.stdout@.push(line)) =~= printout_views(r.stdout@).push(
                    line@,
                ));
                r.stdout.push(line);
            },
            None => {
                assert(false);
            },
        }
        i += 1;
        assert(r@.stdout =~= order.take(i as int).map_values(
            |name: Seq<char>| PrintoutView::Line(profile_line(name, m[name])),
        ));
    }
    assert(order.take(i as int) =~= order);
    r
}

// ---------------------------------------------------------------------------
// The profile commands
// ---------------------------------------------------------------------------

/// Whether a command to add a profile says anything of it.
pub open spec fn says_anything(c: ConnectView) -> bool {
    ||| c.host is Some
    ||| c.port is Some
    ||| c.username is Some
    ||| c.password is Some
    ||| c.private_key is Some
    ||| c.passphrase is Some
    ||| c.ready_timeout_ms is Some
    ||| c.retry is Some
    ||| c.retry_delay_ms is Some
}

/// Whether a command to add a profile says anything of it.
pub fn has_profile_add_flags(connect: &ConnectArgs) -> (r: bool)
    ensures
        r == says_anything(connect@),
{
    connect.host.is_some() || connect.port.is_some() || connect.username.is_some()
        || connect.password.is_some() || connect.private_key.is_some()
        || connect.passphrase.is_some() || connect.ready_timeout_ms.is_some()
        || connect.retry.is_some() || connect.retry_delay_ms.is_some()
}

/// What is to be done about a profile command.
#[derive(Debug)]
pub enum ProfileStep {
    /// Print.
    Print(CommandOutput),
    /// Ask for the profile, then [`store_profile`].
    Prompt { name: String, store: ProfileStore },
    /// Read the profile from a JSON text, then [`store_profile`].
    Parse { name: String, data: String, store: ProfileStore },
    /// Save the profiles, then print.
    Save { store: ProfileStore, printout: Printout },
}

/// What is done about a profile command, given the saved profiles.
pub open spec fn profile_step(
    action: ProfileAction,
    store: ProfileStore,
    json: bool,
    r: Result<ProfileStep, Error>,
) -> bool {
    match action {
        ProfileAction::List => r matches Ok(ProfileStep::Print(printed)) && printed@
            == profiles_printed(store@, json),
        ProfileAction::Read { name } => if store@.contains_key(name@) {
            let value = profile_value(store@[name@]);
            r matches Ok(ProfileStep::Print(printed)) && printed@ == CommandOutputView::of(
                PrintoutView::Pretty(
                    if json {
                        enveloped(value)
                    } else {
                        value
                    },
                ),
            )
        } else {
            r matches Err(Error::ProfileNotFound(missing)) && missing@ == name@
        },
        ProfileAction::Add { name, connect } => if says_anything(connect@) {
            r matches Ok(ProfileStep::Save { store: saved, printout }) && saved@ == store@.insert(
                name@,
                connect@,
            ) && printout@ == message_printed(json, "profile_written"@, name@)
        } else {
            r == Ok::<ProfileStep, Error>(ProfileStep::Prompt { name, store })
        },
        ProfileAction::Write { name, data } => r == Ok::<ProfileStep, Error>(
            ProfileStep::Parse { name, data, store },
        ),
        ProfileAction::Delete { name } => r matches Ok(
            ProfileStep::Save { store: saved, printout },
        ) && saved@ == store@.remove(name@) && printout@ == message_printed(
            json,
            "profile_deleted"@,
            name@,
        ),
    }
}

/// Saves a profile under a name, in place of any that had it.
pub fn store_profile(
    mut store: ProfileStore,
    name: String,
    profile: ConnectArgs,
    json: bool,
) -> (r: (ProfileStore, Printout))
    ensures
        r.0@ == store@.insert(name@, profile@),
        r.1@ == message_printed(json, "profile_written"@, name@),
{
    let printout = emit_message(json, "profile_written", name.as_str());
    store.profiles.insert(name, profile);
    (store, printout)
}

/// What to do about a profile command, given the saved profiles.
pub fn run_profile(action: ProfileAction, mut store: ProfileStore, json: bool) -> (r: Result<
    ProfileStep,
    Error,
>)
    ensures
        profile_step(action, store, json, r),
{
    match action {
        ProfileAction::List => Ok(ProfileStep::Print(print_profiles(&store, json))),
        ProfileAction::Read { name } => match store.profiles.get(name.as_str()) {
            None => Err(Error::ProfileNotFound(name)),
            Some(profile) => {
                let value = profile_json(profile);
                let printout = if json {
                    print_json(value)
                } else {
                    Printout::Pretty(value)
                };
                Ok(ProfileStep::Print(CommandOutput::of(printout)))
            },
        },
        ProfileAction::Add { name, connect } => {
            if has_profile_add_flags(&connect) {
                let (store, printout) = store_profile(store, name, connect, json);
                Ok(ProfileStep::Save { store, printout })
            } else {
                Ok(ProfileStep::Prompt { name, store })
            }
        },
        ProfileAction::Write { name, data } => Ok(ProfileStep::Parse { name, data, store }),
        ProfileAction::Delete { name } => {
            let printout = emit_message(json, "profile_deleted", name.as_str());
            store.profiles.remove(name.as_str());
            Ok(ProfileStep::Save { store, printout })
        },
    }
}

// ---------------------------------------------------------------------------
// Prompts
// ---------------------------------------------------------------------------

/// The answer with the number `i`, without white space around it; an answer that
/// was not given is empty.
pub open spec fn answer(input: Seq<char>, i: int) -> Seq<char> {
    if i < lines_of(input).len() {
        trimmed(lines_of(input)[i])
    } else {
        Seq::empty()
    }
}

/// The profile that the answers to the prompts describe, one to a line: the
/// host, the user, the port and the private key. Only the host is required.
pub open spec fn prompted(input: Seq<char>) -> Result<ConnectView, Seq<char>> {
    let host = answer(input, 0);
    let username = answer(input, 1);
    let port = answer(input, 2);
    let private_key = answer(input, 3);
    if host.len() == 0 {
        Err(Error::PromptWithoutHost.text())
    } else if port.len() > 0 && number_in(port, u16::MAX as nat) is None {
        Err(Error::PromptPort.text())
    } else {
        Ok(
            ConnectView {
                profile: None,
                host: Some(host),
                port: Some(
                    if port.len() == 0 {
                        DEFAULT_PORT
                    } else {
                        number_in(port, u16::MAX as nat)->0 as u16
                    },
                ),
                username: Some(
                    if username.len() == 0 {
                        "root"@
                    } else {
                        username
                    },
                ),
                password: None,
                private_key: if private_key.len() == 0 {
                    None
                } else {
                    Some(private_key)
                },
                passphrase: None,
                ready_timeout_ms: None,
                retry: None,
                retry_delay_ms: None,
            },
        )
    }
}

fn answer_at(all: &Vec<String>, i: usize) -> (r: String)
    ensures
        r@ == if i < all@.len() {
            trimmed(all@[i as int]@)
        } else {
            Seq::empty()
        },
{
    if i < all.len() {
        trim(all[i].as_str())
    } else {
        String::new()
    }
}

/// The profile that the answers to the prompts describe.
pub fn build_profile_from_prompts(input: &str) -> (r: Result<ConnectArgs, Error>)
    ensures
        match r {
            Ok(profile) => prompted(input@) == Ok::<ConnectView, Seq<char>>(profile@),
            Err(e) => prompted(input@) == Err::<ConnectView, Seq<char>>(e.text()),
        },
{
    let all = lines(input);
    let ghost found = lines_of(input@);
    assert(found == texts(all@) && found.len() == all@.len());
    assert(forall|i: int| 0 <= i < all@.len() ==> found[i] == (#[trigger] all@[i])@);
    let host = answer_at(&all, 0);
    if host.as_str().is_empty() {
        return Err(Error::PromptWithoutHost);
    }
    let username = answer_at(&all, 1);
    let port_text = answer_at(&all, 2);
    let private_key = answer_at(&all, 3);
    let port: u16 = if port_text.as_str().is_empty() {
        DEFAULT_PORT
    } else {
        match parse_u16(port_text.as_str()) {
            Some(port) => port,
            None => return Err(Error::PromptPort),
        }
    };
    Ok(
        ConnectArgs {
            profile: None,
            host: Some(host),
            port: Some(port),
            username: Some(
                if username.as_str().is_empty() {
                    "root".to_owned()
                } else {
                    username
                },
            ),
            password: None,
            private_key: if private_key.as_str().is_empty() {
                None
            } else {
                Some(private_key)
            },
            passphrase: None,
            ready_timeout_ms: None,
            retry: None,
            retry_delay_ms: None,
        },
    )
}

// ---------------------------------------------------------------------------
// Laws
// ---------------------------------------------------------------------------

/// A profile that was written is found as it was written, in place of any that
/// had its name; one that was deleted is not found; and the others stay as they
/// are.
pub proof fn profiles_keep_what_was_written(
    store: Map<Seq<char>, ConnectView>,
    name: Seq<char>,
    profile: ConnectView,
    other: Seq<char>,
)
    ensures
        store.insert(name, profile).contains_key(name),
        store.insert(name, profile)[name] == profile,
        !store.insert(name, profile).remove(name).contains_key(name),
        other != name ==> {
            &&& store.insert(name, profile).contains_key(other) == store.contains_key(other)
            &&& store.contains_key(other) ==> store.insert(name, profile)[other] == store[other]
            &&& store.remove(name).contains_key(other) == store.contains_key(other)
            &&& store.contains_key(other) ==> store.remove(name)[other] == store[other]
        },
{
}

/// What the profile commands do to the saved profiles: one that is added is
/// found under its name as it was given, in place of any that had it; one that
/// is deleted is found no more; all others stay as they are.
pub proof fn saved_profiles_are_what_was_asked_for(
    action: ProfileAction,
    store: ProfileStore,
    json: bool,
    r: Result<ProfileStep, Error>,
    other: Seq<char>,
)
    requires
        profile_step(action, store, json, r),
    ensures
        match action {
            ProfileAction::Add { name, connect } => {
                &&& connect@.host is Some || connect@.port is Some || connect@.username is Some
                    || connect@.password is Some || connect@.private_key is Some
                    || connect@.passphrase is Some || connect@.ready_timeout_ms is Some
                    || connect@.retry is Some || connect@.retry_delay_ms is Some ==> {
                    &&& r matches Ok(ProfileStep::Save { store: saved, .. })
                    &&& saved@.contains_key(name@)
                    &&& saved@[name@] == connect@
                    &&& other != name@ ==> saved@.contains_key(other) == store@.contains_key(other)
                    &&& other != name@ && store@.contains_key(other) ==> saved@[other]
                        == store@[other]
                }
                &&& connect@.host is None && connect@.port is None && connect@.username is None
                    && connect@.password is None && connect@.private_key is None
                    && connect@.passphrase is None && connect@.ready_timeout_ms is None
                    && connect@.retry is None && connect@.retry_delay_ms is None ==> {
                    &&& r matches Ok(ProfileStep::Prompt { name: asked, store: kept })
                    &&& asked@ == name@
                    &&& kept@ == store@
                }
            },
            ProfileAction::Delete { name } => {
                &&& r matches Ok(ProfileStep::Save { store: saved, .. })
                &&& !saved@.contains_key(name@)
                &&& other != name@ ==> saved@.contains_key(other) == store@.contains_key(other)
                &&& other != name@ && store@.contains_key(other) ==> saved@[other] == store@[other]
            },
            ProfileAction::Write { name, data } => {
                &&& r matches Ok(ProfileStep::Parse { name: under, data: text, store: kept })
                &&& under@ == name@
                &&& text@ == data@
                &&& kept@ == store@
            },
            ProfileAction::Read { name } => {
                &&& store@.contains_key(name@) <==> r is Ok
                &&& r is Ok ==> r->Ok_0 is Print
                &&& r is Err ==> r->Err_0.text() == "profile '"@ + name@
                    + "' not found. Run 'agentssh profile list' to see saved profiles."@
            },
            ProfileAction::List => r is Ok && r->Ok_0 is Print,
        },
{
}

/// A profile that is read is shown with all that it says.
pub proof fn profiles_are_shown_in_full(p: ConnectView)
    ensures
        ({
            let fields = profile_value(p)->Object_0;
            &&& profile_value(p) is Object
            &&& p.host is Some ==> fields.contains(("host"@, JsonValue::Text(p.host->0)))
            &&& p.host is None ==> fields.contains(("host"@, JsonValue::Null))
            &&& p.port is Some ==> fields.contains(("port"@, JsonValue::Number(p.port->0 as int)))
            &&& p.port is None ==> fields.contains(("port"@, JsonValue::Null))
            &&& p.username is Some ==> fields.contains(
                ("username"@, JsonValue::Text(p.username->0)),
            )
            &&& p.password is Some ==> fields.contains(
                ("password"@, JsonValue::Text(p.password->0)),
            )
            &&& p.private_key is Some ==> fields.contains(
                ("private_key"@, JsonValue::Text(p.private_key->0)),
            )
            &&& p.passphrase is Some ==> fields.contains(
                ("passphrase"@, JsonValue::Text(p.passphrase->0)),
            )
            &&& p.ready_timeout_ms is Some ==> fields.contains(
                ("ready_timeout_ms"@, JsonValue::Number(p.ready_timeout_ms->0 as int)),
            )
            &&& p.retry is Some ==> fields.contains(
                ("retry"@, JsonValue::Number(p.retry->0 as int)),
            )
            &&& p.retry_delay_ms is Some ==> fields.contains(
                ("retry_delay_ms"@, JsonValue::Number(p.retry_delay_ms->0 as int)),
            )
        }),
{
    let f = profile_value(p)->Object_0;
    lemma_items(f);
    assert(f[1].0 == "host"@ && f[2].0 == "port"@ && f[3].0 == "username"@);
    assert(f[4].0 == "password"@ && f[5].0 == "private_key"@ && f[6].0 == "passphrase"@);
    assert(f[7].0 == "ready_timeout_ms"@ && f[8].0 == "retry"@ && f[9].0 == "retry_delay_ms"@);
}

/// A listing names every profile, in the order of the names: as a field of an
/// object, or on a line with the user, the host and the port, which is 22 where
/// the profile gives none.
pub proof fn listings_name_every_profile(store: Map<Seq<char>, ConnectView>, name: Seq<char>)
    requires
        store.dom().finite(),
        store.contains_key(name),
        store[name].host is Some,
        store[name].username is Some,
    ensures
        ({
            let p = store[name];
            let port = if p.port is Some {
                p.port->0 as nat
            } else {
                22
            };
            let line = name + "\t"@ + (p.username->0 + "@"@ + p.host->0 + ":"@) + decimal(port);
            &&& profiles_value(store)->Object_0.contains((name, profile_value(p)))
            &&& profiles_printed(store, false).stdout.contains(PrintoutView::Line(line))
            &&& profiles_printed(store, false).stdout.len() == store.dom().len()
        }),
{
    let order = in_order(store.dom());
    lemma_in_order(store.dom());
    assert(order.to_set().contains(name));
    let i = order.index_of(name);
    let f = profiles_value(store)->Object_0;
    assert(f[i] == (name, profile_value(store[name])));
    let printed = profiles_printed(store, false).stdout;
    assert(order.len() > 0);
    assert(printed[i] == PrintoutView::Line(profile_line(name, store[name])));
    assert(order.len() == store.dom().len()) by {
        order.unique_seq_to_set();
    }
}

/// The answers to the prompts, one to a line, make the profile: the host, which
/// has to be given, the user or else root, the port or else 22, and the private
/// key if there is one.
pub proof fn answers_make_the_profile(
    host: Seq<char>,
    username: Seq<char>,
    port: Seq<char>,
    key: Seq<char>,
    input: Seq<char>,
)
    requires
        lines_of(input) == seq![host, username, port, key],
    ensures
        trimmed(host).len() == 0 ==> prompted(input) is Err,
        trimmed(host).len() > 0 && trimmed(port).len() > 0 && number_in(
            trimmed(port),
            65_535,
        ) is None ==> prompted(input) is Err,
        trimmed(host).len() > 0 && (trimmed(port).len() == 0 || number_in(
            trimmed(port),
            65_535,
        ) is Some) ==> {
            &&& prompted(input) matches Ok(p)
            &&& p.host == Some(trimmed(host))
            &&& trimmed(username).len() > 0 ==> p.username == Some(trimmed(username))
            &&& trimmed(username).len() == 0 ==> p.username == Some("root"@)
            &&& trimmed(port).len() == 0 ==> p.port == Some(22u16)
            &&& trimmed(port).len() > 0 ==> p.port is Some && p.port->0 as nat == number_in(
                trimmed(port),
                65_535,
            )->0
            &&& trimmed(key).len() > 0 ==> p.private_key == Some(trimmed(key))
            &&& trimmed(key).len() == 0 ==> p.private_key is None
            &&& p.profile is None && p.password is None && p.passphrase is None
            &&& p.ready_timeout_ms is None && p.retry is None && p.retry_delay_ms is None
        },
{
    let all = lines_of(input);
    assert(all[0] == host && all[1] == username && all[2] == port && all[3] == key);
}

/// Prompts that were not answered count as empty answers: of what follows the
/// host, nothing has to be given.
pub proof fn answers_may_be_missing(input: Seq<char>)
    ensures
        ({
            let all = lines_of(input);
            let said = |i: int|
                if i < all.len() {
                    trimmed(all[i])
                } else {
                    Seq::<char>::empty()
                };
            &&& said(0).len() == 0 ==> prompted(input) is Err
            &&& said(0).len() > 0 && said(2).len() == 0 ==> {
                &&& prompted(input) matches Ok(p)
                &&& p.host == Some(said(0))
                &&& p.port == Some(22u16)
                &&& said(1).len() == 0 ==> p.username == Some("root"@)
                &&& said(1).len() > 0 ==> p.username == Some(said(1))
                &&& said(3).len() == 0 ==> p.private_key is None
                &&& said(3).len() > 0 ==> p.private_key == Some(said(3))
            }
        }),
{
}

/// Without profiles a listing says so; what a profile does not say is left out
/// of its line.
pub proof fn listings_say_when_there_is_nothing(name: Seq<char>, p: ConnectView)
    ensures
        profiles_printed(Map::empty(), false).stdout == seq![
            PrintoutView::Line("No SSH profiles."@),
        ],
        profiles_value(Map::empty())->Object_0.len() == 0,
        p.username is None && p.host is None && p.port is None ==> profile_line(name, p) == name
            + "\t"@ + (Seq::<char>::empty() + "@"@ + Seq::<char>::empty() + ":"@) + decimal(22),
{
    let none = Map::<Seq<char>, ConnectView>::empty();
    lemma_in_order(none.dom());
    assert(in_order(none.dom()).len() == 0) by {
        if in_order(none.dom()).len() > 0 {
            let first = in_order(none.dom())[0];
            assert(in_order(none.dom()).to_set().contains(first));
        }
    }
}

} // verus!
