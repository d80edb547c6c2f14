//! The registry: the user table, the table of who is online, and the chat
//! rooms with their members.

use vstd::prelude::*;
use crate::error::ChatError;
use crate::names::{lemma_with_name, lemma_without_name, with_name, without_name, NameSet};
use crate::password::{describe, digest_verdict, hash_password, verify_password};
use crate::table::{Table, TableView};
use crate::words::lemma_position;

verus! {

/// One registered user.
#[derive(Debug, PartialEq, Eq)]
pub struct User {
    /// The name, unique among all users.
    pub name: String,
    /// The password: its digest once the user is registered.
    pub password: String,
    /// The chat room that `message` goes to, if any.
    pub current_chat: Option<String>,
}

/// What a `User` holds, with its texts as character sequences.
pub ghost struct UserView {
    pub name: Seq<char>,
    pub password: Seq<char>,
    pub current_chat: Option<Seq<char>>,
}

/// The characters of a text that may be absent.
pub open spec fn opt_text(t: Option<String>) -> Option<Seq<char>> {
    match t {
        Some(s) => Some(s@),
        None => None,
    }
}

/// A copy of a text that may be absent.
pub fn copy_opt_text(t: &Option<String>) -> (out: Option<String>)
    ensures
        opt_text(out) == opt_text(*t),
{
    match t {
        Some(s) => Some(s.clone()),
        None => None,
    }
}

impl View for User {
    type V = UserView;

    open spec fn view(&self) -> UserView {
        UserView {
            name: self.name@,
            password: self.password@,
            current_chat: opt_text(self.current_chat),
        }
    }
}

impl Clone for User {
    fn clone(&self) -> (out: User)
        ensures
            out@ == self@,
    {
        User {
            name: self.name.clone(),
            password: self.password.clone(),
            current_chat: copy_opt_text(&self.current_chat),
        }
    }
}

/// The views of a list of users.
pub open spec fn user_views(list: Seq<User>) -> Seq<UserView> {
    list.map_values(|u: User| u@)
}

/// The user table that a list of records gives: each record under its name,
/// a later record in the place of an earlier one of the same name.
pub open spec fn loaded(records: Seq<UserView>) -> TableView<UserView>
    decreases records.len(),
{
    if records.len() == 0 {
        TableView::empty()
    } else {
        loaded(records.drop_last()).put(records.last().name, records.last())
    }
}

/// Every user stands under its own name.
pub open spec fn keyed_by_name(users: TableView<UserView>) -> bool {
    forall|i: int| 0 <= i < users.keys.len() ==> (#[trigger] users.values[i]).name == users.keys[i]
}

/// No chat room lists a member twice.
pub open spec fn members_unique(chats: TableView<Seq<Seq<char>>>) -> bool {
    forall|i: int| 0 <= i < chats.keys.len() ==> (#[trigger] chats.values[i]).no_duplicates()
}

/// Putting a user under its own name keeps every user under its own name.
pub proof fn lemma_put_user(users: TableView<UserView>, user: UserView)
    requires
        users.wf(),
        keyed_by_name(users),
    ensures
        users.put(user.name, user).wf(),
        keyed_by_name(users.put(user.name, user)),
{
    users.lemma_put(user.name, user);
    lemma_position(users.keys, user.name);
}

/// Putting a member list without repeats keeps all member lists so.
pub proof fn lemma_put_members(
    chats: TableView<Seq<Seq<char>>>,
    chat: Seq<char>,
    members: Seq<Seq<char>>,
)
    requires
        chats.wf(),
        members_unique(chats),
        members.no_duplicates(),
    ensures
        chats.put(chat, members).wf(),
        members_unique(chats.put(chat, members)),
{
    chats.lemma_put(chat, members);
    lemma_position(chats.keys, chat);
}

/// What the registry holds.
pub ghost struct UserManagerView {
    pub users: TableView<UserView>,
    pub onlines: TableView<u64>,
    pub chats: TableView<Seq<Seq<char>>>,
    pub file: Seq<char>,
}

impl UserManagerView {
    /// The three tables are tables, every user stands under its own name and
    /// no chat room lists a member twice.
    pub open spec fn wf(self) -> bool {
        &&& self.users.wf()
        &&& self.onlines.wf()
        &&& self.chats.wf()
        &&& keyed_by_name(self.users)
        &&& members_unique(self.chats)
    }

    /// The registry without users, presence or chat rooms.
    pub open spec fn empty(file: Seq<char>) -> Self {
        UserManagerView {
            users: TableView::empty(),
            onlines: TableView::empty(),
            chats: TableView::empty(),
            file,
        }
    }

    /// The registry with a new user `name` whose password digest is `digest`.
    pub open spec fn registered(self, name: Seq<char>, digest: Seq<char>) -> Self {
        UserManagerView {
            users: self.users.put(
                name,
                UserView { name, password: digest, current_chat: None },
            ),
            ..self
        }
    }

    /// The registry with `chat` as the current chat of the user `name`.
    pub open spec fn with_current_chat(self, name: Seq<char>, chat: Option<Seq<char>>) -> Self {
        UserManagerView {
            users: self.users.put(
                name,
                UserView { current_chat: chat, ..self.users.get(name)->0 },
            ),
            ..self
        }
    }

    /// The registry with `name` online and reachable through `sink`.
    pub open spec fn with_online(self, name: Seq<char>, sink: u64) -> Self {
        UserManagerView { onlines: self.onlines.put(name, sink), ..self }
    }

    /// The registry with `name` offline.
    pub open spec fn without_online(self, name: Seq<char>) -> Self {
        UserManagerView { onlines: self.onlines.del(name), ..self }
    }

    /// The registry with the chat room `chat` holding `founder` alone.
    pub open spec fn with_chat(self, chat: Seq<char>, founder: Seq<char>) -> Self {
        UserManagerView { chats: self.chats.put(chat, seq![founder]), ..self }
    }

    /// The registry with `user` among the members of `chat`.
    pub open spec fn with_member(self, chat: Seq<char>, user: Seq<char>) -> Self {
        UserManagerView {
            chats: self.chats.put(chat, with_name(self.chats.get(chat)->0, user)),
            ..self
        }
    }

    /// The registry with `user` no longer among the members of `chat`.
    pub open spec fn without_member(self, chat: Seq<char>, user: Seq<char>) -> Self {
        UserManagerView {
            chats: self.chats.put(chat, without_name(self.chats.get(chat)->0, user)),
            ..self
        }
    }

    /// The current chat of the user `name`; none where there is no such user.
    pub open spec fn current_chat(self, name: Seq<char>) -> Option<Seq<char>> {
        match self.users.get(name) {
            Some(u) => u.current_chat,
            None => None,
        }
    }

    /// Whether `password` is accepted for the user `name`.
    pub open spec fn accepts(self, name: Seq<char>, password: Seq<char>) -> bool {
        self.users.get(name) matches Some(u) && digest_verdict(password, u.password) == Some(true)
    }
}

/// What registering `name` with the secret `password` may come to: a name
/// that is taken is refused; otherwise the user is stored with a digest that
/// accepts the secret, unless the secret could not be hashed.
pub open spec fn add_post(
    pre: UserManagerView,
    name: Seq<char>,
    password: Seq<char>,
    post: UserManagerView,
    out: Result<(), ChatError>,
) -> bool {
    if pre.users.has(name) {
        out == Err::<(), ChatError>(ChatError::AlreadyExists) && post == pre
    } else {
        match out {
            Ok(_) => {
                &&& post.users.get(name) is Some
                &&& post == pre.registered(name, post.users.get(name)->0.password)
                &&& post.accepts(name, password)
            },
            Err(e) => e is Hashing && post == pre,
        }
    }
}

/// What checking `password` for `name` comes to.
pub open spec fn authenticate_post(
    state: UserManagerView,
    name: Seq<char>,
    password: Seq<char>,
    out: Result<bool, ChatError>,
) -> bool {
    match state.users.get(name) {
        None => out == Err::<bool, ChatError>(ChatError::NotFound),
        Some(u) => match digest_verdict(password, u.password) {
            Some(b) => out == Ok::<bool, ChatError>(b),
            None => out matches Err(ChatError::Hashing(_)),
        },
    }
}

/// Registering the same name a second time is refused with `AlreadyExists`
/// and leaves the registry, and so the size of the user table, as it was.
pub proof fn law_register_twice(
    s0: UserManagerView,
    name: Seq<char>,
    first: Seq<char>,
    s1: UserManagerView,
    r1: Result<(), ChatError>,
    second: Seq<char>,
    s2: UserManagerView,
    r2: Result<(), ChatError>,
)
    requires
        s0.wf(),
        add_post(s0, name, first, s1, r1),
        r1 is Ok,
        add_post(s1, name, second, s2, r2),
    ensures
        r2 == Err::<(), ChatError>(ChatError::AlreadyExists),
        s2 == s1,
        s2.users.keys.len() == s1.users.keys.len(),
{
}

/// After a user registered with a secret, checking that secret for that
/// user gives `true`.
pub proof fn law_authenticate_after_register(
    s0: UserManagerView,
    name: Seq<char>,
    secret: Seq<char>,
    s1: UserManagerView,
    r1: Result<(), ChatError>,
    out: Result<bool, ChatError>,
)
    requires
        s0.wf(),
        add_post(s0, name, secret, s1, r1),
        r1 is Ok,
        authenticate_post(s1, name, secret, out),
    ensures
        out == Ok::<bool, ChatError>(true),
{
}

/// Checking a secret for a name that is not registered gives `NotFound`.
pub proof fn law_authenticate_unknown(
    state: UserManagerView,
    name: Seq<char>,
    secret: Seq<char>,
    out: Result<bool, ChatError>,
)
    requires
        !state.users.has(name),
        authenticate_post(state, name, secret, out),
    ensures
        out == Err::<bool, ChatError>(ChatError::NotFound),
{
}

/// The first `n` records of a user table load to its first `n` entries.
proof fn lemma_loaded_prefix(users: TableView<UserView>, n: int)
    requires
        users.wf(),
        keyed_by_name(users),
        0 <= n <= users.keys.len(),
    ensures
        loaded(users.values.take(n)) == (TableView {
            keys: users.keys.take(n),
            values: users.values.take(n),
        }),
    decreases n,
{
    if n == 0 {
        assert(users.keys.take(0) == Seq::<Seq<char>>::empty());
        assert(users.values.take(0) == Seq::<UserView>::empty());
    } else {
        lemma_loaded_prefix(users, n - 1);
        let records = users.values.take(n);
        let before = TableView { keys: users.keys.take(n - 1), values: users.values.take(n - 1) };
        assert(records.drop_last() == users.values.take(n - 1));
        assert(records.last() == users.values[n - 1]);
        assert(records.last().name == users.keys[n - 1]);
        assert(!before.keys.contains(users.keys[n - 1])) by {
            if before.keys.contains(users.keys[n - 1]) {
                let i = choose|i: int| 0 <= i < before.keys.len() && before.keys[i] == users.keys[n
                    - 1];
                assert(users.keys[i] == users.keys[n - 1]);
            }
        }
        assert(before.keys.push(users.keys[n - 1]) == users.keys.take(n));
        assert(before.values.push(users.values[n - 1]) == users.values.take(n));
    }
}

/// Saving the user table and loading what was saved gives the same table:
/// the same records under the same names, in the same order.
pub proof fn law_save_then_load(state: UserManagerView)
    requires
        state.wf(),
    ensures
        loaded(state.users.values) == state.users,
{
    lemma_loaded_prefix(state.users, state.users.keys.len() as int);
    assert(state.users.keys.take(state.users.keys.len() as int) == state.users.keys);
    assert(state.users.values.take(state.users.values.len() as int) == state.users.values);
}

/// The registry of users, presence and chat rooms.
pub struct UserManager {
    users: Table<User>,
    onlines: Table<u64>,
    chats: Table<NameSet>,
    file: String,
}

impl View for UserManager {
    type V = UserManagerView;

    closed spec fn view(&self) -> UserManagerView {
        UserManagerView {
            users: self.users@,
            onlines: self.onlines@,
            chats: self.chats@,
            file: self.file@,
        }
    }
}

/// What checking a password came to, as the registry reports it.
pub fn auth_outcome(verdict: Result<bool, bcrypt::BcryptError>) -> (out: Result<bool, ChatError>)
    ensures
        match verdict {
            Ok(b) => out == Ok::<bool, ChatError>(b),
            Err(_) => out matches Err(ChatError::Hashing(_)),
        },
{
    match verdict {
        Ok(b) => Ok(b),
        Err(e) => Err(ChatError::Hashing(describe(&e))),
    }
}

impl UserManager {
    /// The invariant of the registry.
    pub open spec fn wf(&self) -> bool {
        self@.wf()
    }

    /// An empty registry whose user table is kept in the file `file_path`.
    pub fn new(file_path: &str) -> (out: UserManager)
        ensures
            out.wf(),
            out@ == UserManagerView::empty(file_path@),
    {
        UserManager {
            users: Table::new(),
            onlines: Table::new(),
            chats: Table::new(),
            file: file_path.to_owned(),
        }
    }

    /// The registry that holds the users of `records`, nobody online and no
    /// chat room.
    pub fn load(file_path: &str, records: Vec<User>) -> (out: UserManager)
        ensures
            out.wf(),
            out@ == (UserManagerView {
                users: loaded(user_views(records@)),
                ..UserManagerView::empty(file_path@)
            }),
    {
        let mut out = UserManager::new(file_path);
        let mut i: usize = 0;
        while i < records.len()
            invariant
                i <= records.len(),
                out.wf(),
                out@ == (UserManagerView {
                    users: loaded(user_views(records@).take(i as int)),
                    ..UserManagerView::empty(file_path@)
                }),
            decreases records.len() - i,
        {
            let user = records[i].clone();
            proof {
                let done = user_views(records@).take(i as int);
                let next = user_views(records@).take(i + 1);
                assert(next.drop_last() == done);
                assert(next.last() == user@);
                lemma_put_user(out@.users, user@);
            }
            out.users.insert(user.name.clone(), user);
            i += 1;
        }
        assert(user_views(records@).take(i as int) == user_views(records@));
        out
    }

    /// The file in which the user table is kept.
    pub fn file(&self) -> (path: &String)
        ensures
            path@ == self@.file,
    {
        &self.file
    }

    /// The records to persist: every user, in the table's order.
    pub fn save(&self) -> (records: Vec<User>)
        requires
            self.wf(),
        ensures
            user_views(records@) == self@.users.values,
    {
        let mut records: Vec<User> = Vec::new();
        let mut i: usize = 0;
        while i < self.users.len()
            invariant
                self.wf(),
                i <= self@.users.keys.len(),
                user_views(records@) == self@.users.values.take(i as int),
            decreases self@.users.keys.len() - i,
        {
            let ghost before = user_views(records@);
            let user = self.users.value_at(i).clone();
            records.push(user);
            assert(user_views(records@) == before.push(user@));
            i += 1;
        }
        assert(self@.users.values.take(i as int) == self@.users.values);
        records
    }

    /// Whether a user `name` is registered.
    pub fn has_user(&self, name: &str) -> (b: bool)
        requires
            self.wf(),
        ensures
            b == self@.users.has(name@),
    {
        self.users.contains_key(name)
    }

    /// Registers `user` with the digest `hashed` of its password, unless the
    /// name is taken or there is no digest.
    pub fn add_hashed(&mut self, user: &User, hashed: Result<String, bcrypt::BcryptError>) -> (out:
        Result<(), ChatError>)
        requires
            old(self).wf(),
        ensures
            final(self).wf(),
            old(self)@.users.has(user.name@) ==> out == Err::<(), ChatError>(
                ChatError::AlreadyExists,
            ) && final(self)@ == old(self)@,
            !old(self)@.users.has(user.name@) ==> match hashed {
                Ok(digest) => out is Ok && final(self)@ == old(self)@.registered(
                    user.name@,
                    digest@,
                ),
                Err(_) => out matches Err(ChatError::Hashing(_)) && final(self)@ == old(self)@,
            },
    {
        if self.users.contains_key(user.name.as_str()) {
            return Err(ChatError::AlreadyExists);
        }
        match hashed {
            Ok(digest) => {
                let record = User { name: user.name.clone(), password: digest, current_chat: None };
                proof {
                    lemma_put_user(self@.users, record@);
                }
                self.users.insert(user.name.clone(), record);
                Ok(())
            },
            Err(e) => Err(ChatError::Hashing(describe(&e))),
        }
    }

    /// Registers `user`: stores the name with the digest of `user.password`,
    /// unless the name is taken.
    pub fn add(&mut self, user: &User) -> (out: Result<(), ChatError>)
        requires
            old(self).wf(),
        ensures
            final(self).wf(),
            add_post(old(self)@, user.name@, user.password@, final(self)@, out),
    {
        if self.users.contains_key(user.name.as_str()) {
            return Err(ChatError::AlreadyExists);
        }
        let hashed = hash_password(user.password.as_str());
        proof {
            if hashed is Ok {
                self@.users.lemma_put(
                    user.name@,
                    UserView { name: user.name@, password: hashed->Ok_0@, current_chat: None },
                );
            }
        }
        self.add_hashed(user, hashed)
    }

    /// The current chat of the user `user_name`.
    pub fn get_current_chat(&self, user_name: &str) -> (chat: Option<String>)
        requires
            self.wf(),
        ensures
            opt_text(chat) == self@.current_chat(user_name@),
    {
        match self.users.get(user_name) {
            Some(user) => copy_opt_text(&user.current_chat),
            None => None,
        }
    }

    /// Makes `chat` the current chat of the user `user_name`.
    pub fn set_current_chat(&mut self, user_name: &str, chat: Option<String>) -> (out: Result<
        (),
        ChatError,
    >)
        requires
            old(self).wf(),
        ensures
            final(self).wf(),
            old(self)@.users.has(user_name@) ==> out is Ok && final(self)@ == old(
                self,
            )@.with_current_chat(user_name@, opt_text(chat)),
            !old(self)@.users.has(user_name@) ==> out == Err::<(), ChatError>(ChatError::NotFound)
                && final(self)@ == old(self)@,
    {
        let at = self.users.find(user_name);
        if at < self.users.len() {
            let user = self.users.value_at(at);
            let changed = User {
                name: user.name.clone(),
                password: user.password.clone(),
                current_chat: chat,
            };
            proof {
                lemma_position(self@.users.keys, user_name@);
                lemma_put_user(self@.users, changed@);
            }
            let _ = self.users.replace_at(at, changed);
            Ok(())
        } else {
            Err(ChatError::NotFound)
        }
    }

    /// Checks `password` against the digest stored for `name`.
    pub fn authenticate(&self, name: &str, password: &str) -> (out: Result<bool, ChatError>)
        requires
            self.wf(),
        ensures
            authenticate_post(self@, name@, password@, out),
            out == Ok::<bool, ChatError>(true) <==> self@.accepts(name@, password@),
    {
        match self.users.get(name) {
            Some(user) => auth_outcome(verify_password(password, user.password.as_str())),
            None => Err(ChatError::NotFound),
        }
    }

    /// Records that `name` is online and reachable through `sink`, in place
    /// of any sink recorded for `name` before.
    pub fn set_online(&mut self, name: String, sink: u64)
        requires
            old(self).wf(),
        ensures
            final(self).wf(),
            final(self)@ == old(self)@.with_online(name@, sink),
            final(self)@.onlines.get(name@) == Some(sink),
            forall|other: Seq<char>|
                other != name@ ==> #[trigger] final(self)@.onlines.get(other) == old(
                    self,
                )@.onlines.get(other),
    {
        proof {
            self@.onlines.lemma_put(name@, sink);
        }
        self.onlines.insert(name, sink);
    }

    /// Records that `name` is offline.
    pub fn set_offline(&mut self, name: &str)
        requires
            old(self).wf(),
        ensures
            final(self).wf(),
            final(self)@ == old(self)@.without_online(name@),
            final(self)@.onlines.get(name@) is None,
            forall|other: Seq<char>|
                other != name@ ==> #[trigger] final(self)@.onlines.get(other) == old(
                    self,
                )@.onlines.get(other),
    {
        proof {
            self@.onlines.lemma_del(name@);
        }
        let _ = self.onlines.remove(name);
    }

    /// The sink through which `name` is reachable, if `name` is online.
    pub fn lookup(&self, name: &str) -> (sink: Option<u64>)
        requires
            self.wf(),
        ensures
            sink == self@.onlines.get(name@),
    {
        match self.onlines.get(name) {
            Some(sink) => Some(*sink),
            None => None,
        }
    }

    /// Opens the chat room `name` with `founder` as its only member; a room
    /// of that name that exists already loses its other members.
    pub fn create_chat(&mut self, name: String, founder: &str)
        requires
            old(self).wf(),
        ensures
            final(self).wf(),
            final(self)@ == old(self)@.with_chat(name@, founder@),
            final(self)@.chats.get(name@) == Some(seq![founder@]),
    {
        let mut members = NameSet::new();
        members.insert(founder.to_owned());
        proof {
            assert(members@ == seq![founder@]);
            lemma_put_members(self@.chats, name@, members@);
            self@.chats.lemma_put(name@, members@);
        }
        self.chats.insert(name, members);
    }

    /// The members of the chat room `name`, in the order in which they came.
    pub fn chat_members(&self, name: &str) -> (members: Option<Vec<String>>)
        requires
            self.wf(),
        ensures
            match members {
                Some(list) => self@.chats.get(name@) == Some(list.deep_view()),
                None => self@.chats.get(name@) is None,
            },
    {
        match self.chats.get(name) {
            Some(members) => Some(members.snapshot()),
            None => None,
        }
    }

    /// Adds `user` to the chat room `name` and hands out the members after
    /// that.
    pub fn join_chat(&mut self, name: &str, user: &str) -> (out: Result<Vec<String>, ChatError>)
        requires
            old(self).wf(),
        ensures
            final(self).wf(),
            match old(self)@.chats.get(name@) {
                None => {
                    &&& out == Err::<Vec<String>, ChatError>(ChatError::NotFound)
                    &&& final(self)@ == old(self)@
                },
                Some(before) => {
                    &&& out matches Ok(members)
                    &&& members.deep_view() == with_name(before, user@)
                    &&& final(self)@ == old(self)@.with_member(name@, user@)
                    &&& final(self)@.chats.get(name@) == Some(with_name(before, user@))
                },
            },
    {
        let at = self.chats.find(name);
        if at < self.chats.len() {
            proof {
                lemma_position(self@.chats.keys, name@);
                let before = self@.chats.values[at as int];
                lemma_with_name(before, user@);
                lemma_put_members(self@.chats, name@, with_name(before, user@));
                self@.chats.lemma_put(name@, with_name(before, user@));
            }
            let mut members = self.chats.replace_at(at, NameSet::new());
            members.insert(user.to_owned());
            let snapshot = members.snapshot();
            let _ = self.chats.replace_at(at, members);
            assert(self@.chats.values == old(self)@.chats.values.update(
                at as int,
                with_name(old(self)@.chats.values[at as int], user@),
            ));
            Ok(snapshot)
        } else {
            Err(ChatError::NotFound)
        }
    }

    /// Removes `user` from the chat room `name` and hands out the members as
    /// they were before.
    pub fn quit_chat(&mut self, name: &str, user: &str) -> (out: Result<Vec<String>, ChatError>)
        requires
            old(self).wf(),
        ensures
            final(self).wf(),
            match old(self)@.chats.get(name@) {
                None => {
                    &&& out == Err::<Vec<String>, ChatError>(ChatError::NotFound)
                    &&& final(self)@ == old(self)@
                },
                Some(before) => if before.contains(user@) {
                    &&& out matches Ok(members)
                    &&& members.deep_view() == before
                    &&& final(self)@ == old(self)@.without_member(name@, user@)
                    &&& final(self)@.chats.get(name@) == Some(without_name(before, user@))
                } else {
                    &&& out == Err::<Vec<String>, ChatError>(ChatError::Rejected)
                    &&& final(self)@ == old(self)@
                },
            },
    {
        let at = self.chats.find(name);
        if at >= self.chats.len() {
            return Err(ChatError::NotFound);
        }
        proof {
            lemma_position(self@.chats.keys, name@);
        }
        if !self.chats.value_at(at).contains(user) {
            return Err(ChatError::Rejected);
        }
        proof {
            let before = self@.chats.values[at as int];
            lemma_without_name(before, user@);
            lemma_put_members(self@.chats, name@, without_name(before, user@));
            self@.chats.lemma_put(name@, without_name(before, user@));
        }
        let mut members = self.chats.replace_at(at, NameSet::new());
        let snapshot = members.snapshot();
        members.remove(user);
        let _ = self.chats.replace_at(at, members);
        assert(self@.chats.values == old(self)@.chats.values.update(
            at as int,
            without_name(old(self)@.chats.values[at as int], user@),
        ));
        Ok(snapshot)
    }
}

} // verus!
