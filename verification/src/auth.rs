//! Logging in: which methods are tried, and in which order.

use crate::cli::{ConnectArgs, ConnectView};
use crate::error::Error;
use crate::text::{begins_with, strip_prefix, text_of};
use vstd::prelude::*;
use vstd::string::*;

verus! {

// ---------------------------------------------------------------------------
// Secrets
// ---------------------------------------------------------------------------

/// The name of the environment variable that a value refers to, if it begins
/// with `$`.
pub open spec fn variable_in(value: Seq<char>) -> Option<Seq<char>> {
    if begins_with(value, "$"@) {
        Some(value.skip("$"@.len() as int))
    } else {
        None
    }
}

/// The name of the environment variable that a value refers to, if it does.
pub fn variable_name(value: &str) -> (r: Option<String>)
    ensures
        text_of(r) == variable_in(value@),
{
    strip_prefix(value, "$")
}

/// What a value comes down to, where `variable` is what the environment variable
/// holds that it may refer to: the variable's contents, or the value itself.
pub open spec fn secret(value: Seq<char>, variable: Option<Seq<char>>) -> Option<Seq<char>> {
    if variable_in(value) is Some {
        variable
    } else {
        Some(value)
    }
}

/// What a value comes down to.
pub fn resolve_env(value: &str, variable: Option<String>) -> (r: Option<String>)
    ensures
        text_of(r) == secret(value@, text_of(variable)),
{
    match variable_name(value) {
        Some(_) => variable,
        None => Some(value.to_owned()),
    }
}

/// What is at a path.
#[derive(Debug)]
pub enum PathState {
    /// Nothing.
    Missing,
    /// Something that cannot be read as text.
    Unreadable,
    /// A text file.
    Text,
}

/// Where a private key comes from.
#[derive(Debug)]
pub enum PrivateKey {
    /// From a file.
    File(String),
    /// From a text.
    Text(String),
}

/// What a [`PrivateKey`] says.
pub enum PrivateKeyView {
    File(Seq<char>),
    Text(Seq<char>),
}

impl View for PrivateKey {
    type V = PrivateKeyView;

    open spec fn view(&self) -> PrivateKeyView {
        match self {
            PrivateKey::File(path) => PrivateKeyView::File(path@),
            PrivateKey::Text(text) => PrivateKeyView::Text(text@),
        }
    }
}

/// What an optional [`PrivateKey`] says.
pub open spec fn key_given(key: Option<PrivateKey>) -> Option<PrivateKeyView> {
    match key {
        Some(key) => Some(key@),
        None => None,
    }
}

/// Where the private key comes from that `value` describes: from the environment
/// variable that it names, from the file at the path that it is, or it is the
/// key itself. `path` is the value with the home directory filled in, and
/// `state` what is there. A variable that is not set and a file that is no text
/// give no key.
pub open spec fn key_source(
    value: Option<Seq<char>>,
    variable: Option<Seq<char>>,
    path: Seq<char>,
    state: PathState,
) -> Option<PrivateKeyView> {
    match value {
        None => None,
        Some(value) => if variable_in(value) is Some {
            match variable {
                Some(text) => Some(PrivateKeyView::Text(text)),
                None => None,
            }
        } else {
            match state {
                PathState::Missing => Some(PrivateKeyView::Text(value)),
                PathState::Unreadable => None,
                PathState::Text => Some(PrivateKeyView::File(path)),
            }
        },
    }
}

/// Where the private key comes from that `value` describes.
pub fn resolve_private_key(
    value: &Option<String>,
    variable: Option<String>,
    path: &str,
    state: PathState,
) -> (r: Option<PrivateKey>)
    ensures
        match r {
            Some(key) => key_source(text_of(*value), text_of(variable), path@, state) == Some(key@),
            None => key_source(text_of(*value), text_of(variable), path@, state) is None,
        },
{
    match value {
        None => None,
        Some(value) => match variable_name(value.as_str()) {
            Some(_) => match variable {
                Some(text) => Some(PrivateKey::Text(text)),
                None => None,
            },
            None => match state {
                PathState::Missing => Some(PrivateKey::Text(value.clone())),
                PathState::Unreadable => None,
                PathState::Text => Some(PrivateKey::File(path.to_owned())),
            },
        },
    }
}

// ---------------------------------------------------------------------------
// Attempts
// ---------------------------------------------------------------------------

/// One way of logging in.
#[derive(Debug)]
pub enum AuthAttempt {
    /// With a private key, which may be locked by a passphrase.
    Key { key: PrivateKey, passphrase: Option<String> },
    /// With a password.
    Password(String),
    /// With the keys of the agent, which are not listed yet.
    Agent,
    /// With one key of the agent.
    Identity(usize),
}

/// What an [`AuthAttempt`] says.
pub enum AttemptView {
    Key { key: PrivateKeyView, passphrase: Option<Seq<char>> },
    Password(Seq<char>),
    Agent,
    Identity(nat),
}

impl View for AuthAttempt {
    type V = AttemptView;

    open spec fn view(&self) -> AttemptView {
        match self {
            AuthAttempt::Key { key, passphrase } => AttemptView::Key {
                key: key@,
                passphrase: text_of(*passphrase),
            },
            AuthAttempt::Password(password) => AttemptView::Password(password@),
            AuthAttempt::Agent => AttemptView::Agent,
            AuthAttempt::Identity(i) => AttemptView::Identity(*i as nat),
        }
    }
}

/// What attempts say.
pub open spec fn attempt_views(attempts: Seq<AuthAttempt>) -> Seq<AttemptView> {
    Seq::new(attempts.len(), |i: int| attempts[i]@)
}

/// The ways of logging in that are tried, in order: the private key, the
/// password, and the agent only where neither is asked for.
pub open spec fn attempts_for(
    args: ConnectView,
    key: Option<PrivateKeyView>,
    password: Option<Seq<char>>,
    passphrase: Option<Seq<char>>,
) -> Seq<AttemptView> {
    (match key {
        Some(key) => seq![AttemptView::Key { key, passphrase }],
        None => Seq::empty(),
    }) + (match password {
        Some(password) => seq![AttemptView::Password(password)],
        None => Seq::empty(),
    }) + (if args.private_key is None && args.password is None {
        seq![AttemptView::Agent]
    } else {
        Seq::empty()
    })
}

/// What is left to try when an attempt was refused.
pub open spec fn after_refusal(left: Seq<AttemptView>) -> Seq<AttemptView> {
    left.skip(1)
}

/// What is left to try when the agent has listed so many keys.
pub open spec fn after_listing(left: Seq<AttemptView>, count: nat) -> Seq<AttemptView> {
    Seq::new(count, |i: int| AttemptView::Identity(i as nat)) + left.skip(1)
}

/// A login in progress.
#[derive(Debug)]
pub struct Authentication {
    pub attempts: Vec<AuthAttempt>,
    pub next: usize,
}

impl Authentication {
    /// The attempts that are left.
    pub open spec fn left(&self) -> Seq<AttemptView> {
        attempt_views(self.attempts@).skip(self.next as int)
    }

    /// Whether the login is at one of its attempts, or behind the last.
    pub open spec fn wf(&self) -> bool {
        self.next <= self.attempts@.len()
    }

    /// A login with what the arguments give: a private key, a password and a
    /// passphrase, each if there is one.
    pub fn start(
        args: &ConnectArgs,
        key: Option<PrivateKey>,
        password: Option<String>,
        passphrase: Option<String>,
    ) -> (r: Self)
        ensures
            r.wf(),
            r.left() == attempts_for(
                args@,
                key_given(key),
                text_of(password),
                text_of(passphrase),
            ),
    {
        let mut attempts: Vec<AuthAttempt> = Vec::new();
        let ghost goal = attempts_for(
            args@,
            key_given(key),
            text_of(password),
            text_of(passphrase),
        );
        if let Some(key) = key {
            attempts.push(AuthAttempt::Key { key, passphrase });
        }
        if let Some(password) = password {
            attempts.push(AuthAttempt::Password(password));
        }
        if args.private_key.is_none() && args.password.is_none() {
            attempts.push(AuthAttempt::Agent);
        }
        let r = Authentication { attempts, next: 0 };
        assert(r.left() =~= goal);
        r
    }

    /// What to try next. When nothing is left, the login has failed.
    pub fn current(&self) -> (r: Result<&AuthAttempt, Error>)
        requires
            self.wf(),
        ensures
            match r {
                Ok(attempt) => self.left().len() > 0 && attempt@ == self.left()[0],
                Err(e) => self.left().len() == 0 && e == Error::AuthenticationFailed,
            },
    {
        if self.next < self.attempts.len() {
            assert(self.left()[0] == self.attempts@[self.next as int]@);
            Ok(&self.attempts[self.next])
        } else {
            Err(Error::AuthenticationFailed)
        }
    }

    /// Takes in that the attempt was refused.
    pub fn refused(&mut self)
        requires
            old(self).wf(),
            old(self).left().len() > 0,
        ensures
            final(self).wf(),
            final(self).left() == after_refusal(old(self).left()),
    {
        let n: usize = self.attempts.len();
        assert(self.next < n);
        self.next = self.next + 1;
        assert(self.left() =~= old(self).left().skip(1));
    }

    /// Takes in how many keys the agent has. They are tried in the order in which
    /// the agent lists them.
    pub fn listed(&mut self, count: usize)
        requires
            old(self).wf(),
            old(self).left().len() > 0,
        ensures
            final(self).wf(),
            final(self).left() == after_listing(old(self).left(), count as nat),
    {
        let ghost rest = self.left().skip(1);
        let ghost found = Seq::new(count as nat, |i: int| AttemptView::Identity(i as nat));
        let n: usize = self.attempts.len();
        assert(self.next < n);
        let at: usize = self.next + 1;
        let mut tail: Vec<AuthAttempt> = self.attempts.split_off(at);
        let ghost tail_views = attempt_views(tail@);
        assert(tail_views =~= rest);
        let mut fresh: Vec<AuthAttempt> = Vec::new();
        let mut i: usize = 0;
        while i < count
            invariant
                i <= count,
                attempt_views(fresh@) == Seq::new(
                    i as nat,
                    |j: int| AttemptView::Identity(j as nat),
                ),
            decreases count - i,
        {
            let a = AuthAttempt::Identity(i);
            assert(attempt_views(fresh@.push(a)) =~= attempt_views(fresh@).push(a@));
            fresh.push(a);
            i += 1;
            assert(attempt_views(fresh@) =~= Seq::new(
                i as nat,
                |j: int| AttemptView::Identity(j as nat),
            ));
        }
        let ghost fresh_views = attempt_views(fresh@);
        assert(fresh_views =~= found);
        let ghost tail_before = tail@;
        let ghost fresh_before = fresh@;
        fresh.append(&mut tail);
        assert(attempt_views(fresh@) =~= fresh_views + tail_views) by {
            assert forall|k: int| 0 <= k < fresh@.len() implies attempt_views(fresh@)[k] == (
            fresh_views + tail_views)[k] by {
                if k < fresh_before.len() {
                    assert(fresh@[k] == fresh_before[k]);
                    assert(attempt_views(fresh_before)[k] == fresh_before[k]@);
                } else {
                    assert(fresh@[k] == tail_before[k - fresh_before.len()]);
                    assert(attempt_views(tail_before)[k - fresh_before.len()] == tail_before[k
                        - fresh_before.len()]@);
                }
            }
        }
        self.attempts = fresh;
        self.next = 0;
        assert(self.left() =~= found + rest);
    }
}

// ---------------------------------------------------------------------------
// Laws
// ---------------------------------------------------------------------------

/// The agent is asked only where neither a private key nor a password was asked
/// for, and it is asked last.
pub proof fn agent_is_the_last_resort(
    args: ConnectView,
    key: Option<PrivateKeyView>,
    password: Option<Seq<char>>,
    passphrase: Option<Seq<char>>,
    i: int,
)
    requires
        0 <= i < attempts_for(args, key, password, passphrase).len(),
        attempts_for(args, key, password, passphrase)[i] is Agent,
    ensures
        args.private_key is None,
        args.password is None,
        i == attempts_for(args, key, password, passphrase).len() - 1,
{
}

/// The private key is tried before the password.
pub proof fn key_comes_before_password(
    args: ConnectView,
    key: PrivateKeyView,
    password: Seq<char>,
    passphrase: Option<Seq<char>>,
)
    ensures
        attempts_for(args, Some(key), Some(password), passphrase)[0] == (AttemptView::Key {
            key,
            passphrase,
        }),
        attempts_for(args, Some(key), Some(password), passphrase)[1] == AttemptView::Password(
            password,
        ),
{
}

/// A value that begins with a dollar sign names a variable and stands for what
/// the variable holds; any other stands for itself.
pub proof fn dollar_signs_name_variables(name: Seq<char>, variable: Option<Seq<char>>)
    ensures
        variable_in(seq!['$'] + name) == Some(name),
        secret(seq!['$'] + name, variable) == variable,
        name.len() == 0 || name[0] != '$' ==> variable_in(name) is None && secret(name, variable)
            == Some(name),
{
    reveal_strlit("$");
    assert("$"@ =~= seq!['$']);
    let value = seq!['$'] + name;
    assert(value.take(1) =~= "$"@);
    assert(value.skip(1) =~= name);
    if begins_with(name, "$"@) {
        assert(name.take(1)[0] == '$');
    }
}

/// Where a private key comes from: a variable, a file, or the value itself where
/// no such file is there. Without a value there is no key.
pub proof fn keys_come_from_where_they_are(
    name: Seq<char>,
    variable: Option<Seq<char>>,
    path: Seq<char>,
    state: PathState,
)
    ensures
        key_source(None, variable, path, state) is None,
        variable is Some ==> key_source(Some(seq!['$'] + name), variable, path, state) == Some(
            PrivateKeyView::Text(variable->0),
        ),
        variable is None ==> key_source(Some(seq!['$'] + name), variable, path, state) is None,
        name.len() == 0 || name[0] != '$' ==> {
            &&& key_source(Some(name), variable, path, PathState::Text) == Some(
                PrivateKeyView::File(path),
            )
            &&& key_source(Some(name), variable, path, PathState::Missing) == Some(
                PrivateKeyView::Text(name),
            )
            &&& key_source(Some(name), variable, path, PathState::Unreadable) is None
        },
{
    dollar_signs_name_variables(name, variable);
}

/// What is tried, and nothing else: the key if there is one, then the password
/// if there is one, and the agent where neither was asked for.
pub proof fn attempts_are_what_was_given(
    args: ConnectView,
    key: PrivateKeyView,
    password: Seq<char>,
    passphrase: Option<Seq<char>>,
)
    ensures
        ({
            let with_key = AttemptView::Key { key, passphrase };
            let with_password = AttemptView::Password(password);
            let asked = args.private_key is Some || args.password is Some;
            &&& asked ==> {
                &&& attempts_for(args, None, None, passphrase) =~= Seq::empty()
                &&& attempts_for(args, Some(key), None, passphrase) =~= seq![with_key]
                &&& attempts_for(args, None, Some(password), passphrase) =~= seq![with_password]
                &&& attempts_for(args, Some(key), Some(password), passphrase) =~= seq![
                    with_key,
                    with_password,
                ]
            }
            &&& !asked ==> {
                &&& attempts_for(args, None, None, passphrase) =~= seq![AttemptView::Agent]
                &&& attempts_for(args, Some(key), Some(password), passphrase) =~= seq![
                    with_key,
                    with_password,
                    AttemptView::Agent,
                ]
            }
        }),
{
}

/// What is tried after an attempt was refused is the next one, and nothing is
/// passed over. The keys of the agent take its place, in the order in which it
/// lists them.
pub proof fn attempts_follow_each_other(
    first: AttemptView,
    rest: Seq<AttemptView>,
    count: nat,
    i: int,
)
    requires
        0 <= i < count,
    ensures
        after_refusal(seq![first] + rest) == rest,
        after_listing(seq![first] + rest, count).len() == count + rest.len(),
        after_listing(seq![first] + rest, count)[i] == AttemptView::Identity(i as nat),
        after_listing(seq![first] + rest, count).skip(count as int) == rest,
        after_listing(seq![first] + rest, 0) == rest,
{
    let all = seq![first] + rest;
    assert(all.skip(1) =~= rest);
    assert(after_listing(all, count).skip(count as int) =~= rest);
    assert(after_listing(all, 0) =~= rest);
}

} // verus!
