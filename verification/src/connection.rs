//! Where to connect to: profiles, overrides and what is required.

use crate::cli::{ConnectArgs, ConnectView};
use crate::error::Error;
use crate::profile::ProfileStore;
use crate::text::{copy_text, text_of};
use crate::util::DEFAULT_PORT;
use vstd::prelude::*;
use vstd::string::*;

pub use crate::state::SharedConnection;

verus! {

/// A value, or another where there is none.
pub open spec fn either<T>(first: Option<T>, second: Option<T>) -> Option<T> {
    if first is Some {
        first
    } else {
        second
    }
}

/// A profile with inline arguments in place of what it says.
pub open spec fn merged(base: ConnectView, inline: ConnectView) -> ConnectView {
    ConnectView {
        profile: either(inline.profile, base.profile),
        host: either(inline.host, base.host),
        port: either(inline.port, base.port),
        username: either(inline.username, base.username),
        password: either(inline.password, base.password),
        private_key: either(inline.private_key, base.private_key),
        passphrase: either(inline.passphrase, base.passphrase),
        ready_timeout_ms: either(inline.ready_timeout_ms, base.ready_timeout_ms),
        retry: either(inline.retry, base.retry),
        retry_delay_ms: either(inline.retry_delay_ms, base.retry_delay_ms),
    }
}

fn either_text(first: &Option<String>, second: &Option<String>) -> (r: Option<String>)
    ensures
        text_of(r) == either(text_of(*first), text_of(*second)),
{
    if first.is_some() {
        copy_text(first)
    } else {
        copy_text(second)
    }
}

/// Merges inline arguments with the defaults of a profile. Inline arguments
/// take precedence.
pub fn merge_connect_args(base: &ConnectArgs, override_args: &ConnectArgs) -> (r: ConnectArgs)
    ensures
        r@ == merged(base@, override_args@),
{
    ConnectArgs {
        profile: either_text(&override_args.profile, &base.profile),
        host: either_text(&override_args.host, &base.host),
        port: if override_args.port.is_some() {
            override_args.port
        } else {
            base.port
        },
        username: either_text(&override_args.username, &base.username),
        password: either_text(&override_args.password, &base.password),
        private_key: either_text(&override_args.private_key, &base.private_key),
        passphrase: either_text(&override_args.passphrase, &base.passphrase),
        ready_timeout_ms: if override_args.ready_timeout_ms.is_some() {
            override_args.ready_timeout_ms
        } else {
            base.ready_timeout_ms
        },
        retry: if override_args.retry.is_some() {
            override_args.retry
        } else {
            base.retry
        },
        retry_delay_ms: if override_args.retry_delay_ms.is_some() {
            override_args.retry_delay_ms
        } else {
            base.retry_delay_ms
        },
    }
}

/// What arguments come down to, given the saved profiles or why they cannot be
/// read; or the message why not.
pub open spec fn resolved(args: ConnectView, profiles: Result<ProfileStore, Error>) -> Result<
    ConnectView,
    Seq<char>,
> {
    match args.profile {
        None => Ok(args),
        Some(name) => match profiles {
            Err(e) => Err(e.text()),
            Ok(store) => if store.profiles@.contains_key(name) {
                Ok(merged(store.profiles@[name]@, args))
            } else {
                Err(profile_missing(name))
            },
        },
    }
}

/// The message that there is no such profile.
pub open spec fn profile_missing(name: Seq<char>) -> Seq<char> {
    "profile '"@ + name + "' not found. Run 'agentssh profile list' to see saved profiles."@
}

/// Fills in what the profile says that the arguments name. Without a profile,
/// the arguments stand for themselves. The saved profiles matter only where a
/// profile is named.
pub fn resolve_connect_args(args: &ConnectArgs, profiles: &Result<ProfileStore, Error>) -> (r: Result<
    ConnectArgs,
    Error,
>)
    ensures
        match r {
            Ok(done) => resolved(args@, *profiles) == Ok::<ConnectView, Seq<char>>(done@),
            Err(e) => resolved(args@, *profiles) == Err::<ConnectView, Seq<char>>(e.text()),
        },
{
    match &args.profile {
        None => Ok(args.clone()),
        Some(name) => match profiles {
            Err(e) => Err(Error::Outside(e.to_string())),
            Ok(store) => match store.profiles.get(name.as_str()) {
                Some(profile) => Ok(merge_connect_args(profile, args)),
                None => Err(Error::ProfileNotFound(name.clone())),
            },
        },
    }
}

/// The arguments with the default profile, where they name none.
pub open spec fn defaulted(args: ConnectArgs, default: Option<String>) -> ConnectArgs {
    if args.profile is Some {
        args
    } else {
        ConnectArgs { profile: default, ..args }
    }
}

/// Names the default profile where no profile is named.
pub fn with_default_profile(args: ConnectArgs, default: Option<String>) -> (r: ConnectArgs)
    ensures
        r == defaulted(args, default),
        r@ == (ConnectView { profile: either(args@.profile, text_of(default)), ..args@ }),
{
    if args.profile.is_some() {
        args
    } else {
        ConnectArgs { profile: default, ..args }
    }
}

/// Where to connect to, and as whom.
#[derive(Debug)]
pub struct ConnectTarget {
    pub host: String,
    pub port: u16,
    pub username: String,
}

/// The port that arguments ask for: 22 where they ask for none.
pub open spec fn port_of(args: ConnectView) -> u16 {
    match args.port {
        Some(port) => port,
        None => DEFAULT_PORT,
    }
}

/// What a [`ConnectTarget`] says.
pub struct TargetView {
    pub host: Seq<char>,
    pub port: u16,
    pub username: Seq<char>,
}

impl View for ConnectTarget {
    type V = TargetView;

    open spec fn view(&self) -> TargetView {
        TargetView { host: self.host@, port: self.port, username: self.username@ }
    }
}

/// What is connected to, or the message why not: a host and a user are
/// required.
pub open spec fn target_of(args: ConnectView) -> Result<TargetView, Seq<char>> {
    match (args.host, args.username) {
        (None, _) => Err(Error::HostRequired.text()),
        (Some(_), None) => Err(Error::UsernameRequired.text()),
        (Some(host), Some(username)) => Ok(TargetView { host, port: port_of(args), username }),
    }
}

/// What to connect to.
pub fn connect_target(args: &ConnectArgs) -> (r: Result<ConnectTarget, Error>)
    ensures
        match r {
            Ok(target) => target_of(args@) == Ok::<TargetView, Seq<char>>(target@),
            Err(e) => target_of(args@) == Err::<TargetView, Seq<char>>(e.text()),
        },
{
    let host = match &args.host {
        Some(host) => host.clone(),
        None => return Err(Error::HostRequired),
    };
    let port: u16 = match args.port {
        Some(port) => port,
        None => DEFAULT_PORT,
    };
    match &args.username {
        Some(username) => Ok(ConnectTarget { host, port, username: username.clone() }),
        None => Err(Error::UsernameRequired),
    }
}

/// What arguments lead to: what they come down to and what is connected to, or
/// the message why not.
pub open spec fn prepared(args: ConnectView, profiles: Result<ProfileStore, Error>) -> Result<
    (ConnectView, TargetView),
    Seq<char>,
> {
    match resolved(args, profiles) {
        Err(message) => Err(message),
        Ok(done) => match target_of(done) {
            Err(message) => Err(message),
            Ok(target) => Ok((done, target)),
        },
    }
}

/// Fills in the profile and finds out what to connect to.
pub fn prepare_connect(args: &ConnectArgs, profiles: &Result<ProfileStore, Error>) -> (r: Result<
    (ConnectArgs, ConnectTarget),
    Error,
>)
    ensures
        match r {
            Ok((done, target)) => prepared(args@, *profiles) == Ok::<
                (ConnectView, TargetView),
                Seq<char>,
            >((done@, target@)),
            Err(e) => prepared(args@, *profiles) == Err::<(ConnectView, TargetView), Seq<char>>(
                e.text(),
            ),
        },
{
    match resolve_connect_args(args, profiles) {
        Err(e) => Err(e),
        Ok(done) => match connect_target(&done) {
            Err(e) => Err(e),
            Ok(target) => Ok((done, target)),
        },
    }
}

/// How long to wait before connecting once more, after so many failures: not
/// at all where the failures are more than the retries asked for.
pub open spec fn retry_delay(retry: Option<u32>, delay: Option<u64>, failures: u32) -> Option<u64> {
    if failures <= (match retry {
        Some(n) => n,
        None => 0,
    }) {
        Some(
            match delay {
                Some(ms) => ms,
                None => 0,
            },
        )
    } else {
        None
    }
}

/// How long to wait before connecting once more, after so many failures.
pub fn retry_after(args: &ConnectArgs, failures: u32) -> (r: Option<u64>)
    ensures
        r == retry_delay(args.retry, args.retry_delay_ms, failures),
{
    let retries: u32 = match args.retry {
        Some(n) => n,
        None => 0,
    };
    if failures <= retries {
        match args.retry_delay_ms {
            Some(ms) => Some(ms),
            None => Some(0),
        }
    } else {
        None
    }
}

// ---------------------------------------------------------------------------
// Laws
// ---------------------------------------------------------------------------

/// What is given inline wins; what is not comes from the profile.
pub proof fn inline_arguments_win(base: ConnectView, inline: ConnectView)
    ensures
        inline.host is Some ==> merged(base, inline).host == inline.host,
        inline.host is None ==> merged(base, inline).host == base.host,
        inline.port is Some ==> merged(base, inline).port == inline.port,
        inline.port is None ==> merged(base, inline).port == base.port,
        inline.username is Some ==> merged(base, inline).username == inline.username,
        inline.username is None ==> merged(base, inline).username == base.username,
        inline.password is Some ==> merged(base, inline).password == inline.password,
        inline.password is None ==> merged(base, inline).password == base.password,
        inline.private_key is Some ==> merged(base, inline).private_key == inline.private_key,
        inline.private_key is None ==> merged(base, inline).private_key == base.private_key,
        inline.passphrase is Some ==> merged(base, inline).passphrase == inline.passphrase,
        inline.passphrase is None ==> merged(base, inline).passphrase == base.passphrase,
        inline.retry is Some ==> merged(base, inline).retry == inline.retry,
        inline.retry is None ==> merged(base, inline).retry == base.retry,
{
}

/// Merging in two steps is merging once, and merging a profile with itself
/// changes nothing.
pub proof fn merging_is_associative(a: ConnectView, b: ConnectView, c: ConnectView)
    ensures
        merged(merged(a, b), c) == merged(a, merged(b, c)),
        merged(a, a) == a,
{
}

/// Every argument is taken from where it is given: inline if it is, and else
/// from the profile.
pub proof fn each_argument_has_its_source(base: ConnectView, inline: ConnectView)
    ensures
        ({
            let both = merged(base, inline);
            &&& both.profile == if inline.profile is Some {
                inline.profile
            } else {
                base.profile
            }
            &&& both.ready_timeout_ms == if inline.ready_timeout_ms is Some {
                inline.ready_timeout_ms
            } else {
                base.ready_timeout_ms
            }
            &&& both.retry_delay_ms == if inline.retry_delay_ms is Some {
                inline.retry_delay_ms
            } else {
                base.retry_delay_ms
            }
        }),
{
}

/// What arguments come down to: themselves where they name no profile, and else
/// the profile with the arguments in place of what it says. A profile that is
/// not there is an error, and so is a file of profiles that cannot be read.
pub proof fn profiles_fill_in(args: ConnectView, profiles: Result<ProfileStore, Error>)
    ensures
        args.profile is None ==> resolved(args, profiles) == Ok::<ConnectView, Seq<char>>(args),
        args.profile is Some && profiles is Ok && profiles->Ok_0.profiles@.contains_key(
            args.profile->0,
        ) ==> resolved(args, profiles) == Ok::<ConnectView, Seq<char>>(
            merged(profiles->Ok_0.profiles@[args.profile->0]@, args),
        ),
        args.profile is Some && profiles is Ok && !profiles->Ok_0.profiles@.contains_key(
            args.profile->0,
        ) ==> resolved(args, profiles) == Err::<ConnectView, Seq<char>>(
            "profile '"@ + args.profile->0
                + "' not found. Run 'agentssh profile list' to see saved profiles."@,
        ),
        args.profile is Some && profiles is Err ==> resolved(args, profiles) == Err::<
            ConnectView,
            Seq<char>,
        >(profiles->Err_0.text()),
{
}

/// What is connected to: the host and the user of the arguments, on the port
/// that they give or on port 22. Without a host, or without a user, nothing is.
pub proof fn targets_are_what_was_asked_for(args: ConnectView)
    ensures
        args.host is Some && args.username is Some ==> target_of(args) == Ok::<
            TargetView,
            Seq<char>,
        >(
            TargetView {
                host: args.host->0,
                port: if args.port is Some {
                    args.port->0
                } else {
                    22
                },
                username: args.username->0,
            },
        ),
        args.host is None || args.username is None ==> target_of(args) is Err,
        args.host is None ==> target_of(args)->Err_0 == "--host is required"@,
        args.host is Some && args.username is None ==> target_of(args)->Err_0
            == "--username is required"@,
{
}

/// What is connected to with a profile: what the arguments say, and what the
/// profile says where they say nothing.
pub proof fn connecting_by_profile(
    args: ConnectView,
    store: ProfileStore,
    name: Seq<char>,
    host: Seq<char>,
    username: Seq<char>,
)
    requires
        args.profile == Some(name),
        store.profiles@.contains_key(name),
        store.profiles@[name]@.host == Some(host),
        store.profiles@[name]@.username == Some(username),
    ensures
        prepared(args, Ok(store)) is Ok,
        ({
            let profile = store.profiles@[name]@;
            let (done, target) = prepared(args, Ok(store))->Ok_0;
            &&& done == merged(profile, args)
            &&& target.host == if args.host is Some {
                args.host->0
            } else {
                host
            }
            &&& target.username == if args.username is Some {
                args.username->0
            } else {
                username
            }
            &&& target.port == if args.port is Some {
                args.port->0
            } else if profile.port is Some {
                profile.port->0
            } else {
                22
            }
        }),
{
}

/// A connection is tried once, and once more for each retry that is asked for,
/// with the delay that is asked for before each.
pub proof fn retries_are_counted(retry: Option<u32>, delay: Option<u64>, failures: u32)
    ensures
        retry is None && failures > 0 ==> retry_delay(retry, delay, failures) is None,
        retry is Some ==> (retry_delay(retry, delay, failures) is Some <==> failures <= retry->0),
        retry_delay(retry, delay, failures) is Some && delay is Some ==> retry_delay(
            retry,
            delay,
            failures,
        ) == delay,
        retry_delay(retry, delay, failures) is Some && delay is None ==> retry_delay(
            retry,
            delay,
            failures,
        ) == Some(0u64),
{
}

/// The default profile is named where none is, and nothing else changes.
pub proof fn defaults_do_not_override(args: ConnectArgs, default: Option<String>)
    ensures
        args.profile is Some ==> defaulted(args, default) == args,
        args.profile is None ==> defaulted(args, default) == (ConnectArgs {
            profile: default,
            ..args
        }),
{
}

} // verus!
