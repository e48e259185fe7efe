//! A registry of applications in memory.

use vstd::prelude::*;
use vstd::string::*;

use crate::app::config::{App, AppView};
use crate::app::manager::AppManager;
use crate::error::{outcome, Error, ErrorView, Result};
use crate::model::{opt_view, views, Duplicate};
use crate::table::{named_order, Table};
use crate::text::{
    byte_len, concat, decimal, decimal_text, lemma_split_is_unique, same, split_once, splits,
};
use crate::token::{sign_text, signature};
use crate::websocket::SocketId;

verus! {

/// A registry of applications in memory.
pub struct MemoryAppManager {
    apps: Table<App>,
}

impl View for MemoryAppManager {
    type V = Map<Seq<char>, AppView>;

    closed spec fn view(&self) -> Map<Seq<char>, AppView> {
        self.apps@
    }
}

impl Default for MemoryAppManager {
    fn default() -> (r: Self)
        ensures
            r@ == Map::<Seq<char>, AppView>::empty(),
    {
        MemoryAppManager::new()
    }
}

impl MemoryAppManager {
    /// Each application stands under its own id.
    #[verifier::type_invariant]
    spec fn in_order(self) -> bool {
        keyed_by_id(self.apps@)
    }

    /// A registry without applications.
    pub fn new() -> (r: Self)
        ensures
            r@ == Map::<Seq<char>, AppView>::empty(),
    {
        MemoryAppManager { apps: Table::new() }
    }

    /// The application with this id.
    pub fn find(&self, app_id: &str) -> (r: Option<&App>)
        ensures
            match r {
                Some(app) => app_with_id(self@, app_id@) == Some(app@),
                None => app_with_id(self@, app_id@) == None::<AppView>,
            },
    {
        self.apps.get(app_id)
    }
}

/// Each application stands under its own id.
pub open spec fn keyed_by_id(apps: Map<Seq<char>, AppView>) -> bool {
    forall|id: Seq<char>| #[trigger] apps.contains_key(id) ==> apps[id].id == id
}

/// No two applications of a list share an id.
pub open spec fn distinct_ids(list: Seq<AppView>) -> bool {
    forall|i: int, j: int|
        0 <= i < j < list.len() ==> (#[trigger] list[i]).id != (#[trigger] list[j]).id
}

/// The application with this id.
pub open spec fn app_with_id(apps: Map<Seq<char>, AppView>, id: Seq<char>) -> Option<AppView> {
    if apps.contains_key(id) {
        Some(apps[id])
    } else {
        None
    }
}

/// `app` is registered, and has this key.
pub open spec fn registered_with_key(
    apps: Map<Seq<char>, AppView>,
    key: Seq<char>,
    app: AppView,
) -> bool {
    app.key == key && exists|id: Seq<char>| #[trigger] apps.contains_key(id) && apps[id] == app
}

/// Some application has this key.
pub open spec fn key_in_use(apps: Map<Seq<char>, AppView>, key: Seq<char>) -> bool {
    exists|id: Seq<char>| #[trigger] apps.contains_key(id) && apps[id].key == key
}

/// `list` holds every application once, in some order.
pub open spec fn lists_all(apps: Map<Seq<char>, AppView>, list: Seq<AppView>) -> bool {
    exists|order: Seq<Seq<char>>| #[trigger]
        named_order(order, apps.dom()) && list == order.map_values(|id: Seq<char>| apps[id])
}

/// How many bytes the name of a channel may have in an application.
pub open spec fn name_limit(app: AppView) -> int {
    match app.max_channel_name_length {
        Some(n) => n as int,
        None => 200,
    }
}

/// A character that the name of a channel may hold.
pub open spec fn name_char(c: char) -> bool {
    ||| 'a' <= c <= 'z'
    ||| 'A' <= c <= 'Z'
    ||| '0' <= c <= '9'
    ||| c == '-'
    ||| c == '_'
    ||| c == '='
    ||| c == '@'
    ||| c == '.'
}

/// Whether a channel may have this name in an application, and if not, why.
pub open spec fn channel_name_verdict(app: AppView, name: Seq<char>) -> std::result::Result<
    (),
    ErrorView,
> {
    if byte_len(name) > name_limit(app) {
        Err(
            ErrorView::ChannelError(
                "Channel name too long. Max length is "@ + decimal(name_limit(app) as nat),
            ),
        )
    } else if exists|i: int| 0 <= i < name.len() && !name_char(#[trigger] name[i]) {
        Err(ErrorView::ChannelError("Channel name contains invalid characters"@))
    } else {
        Ok(())
    }
}

/// Whether the text `key:signature` authorizes a connection, and if that cannot be said, why.
pub open spec fn user_auth_verdict(
    apps: Map<Seq<char>, AppView>,
    socket_id: Seq<char>,
    key: Seq<char>,
    given: Seq<char>,
) -> std::result::Result<bool, ErrorView> {
    match app_with_id(apps, key) {
        Some(app) => Ok(given == signature(app.secret, socket_id)),
        None => Err(ErrorView::InvalidAppKey),
    }
}

impl AppManager for MemoryAppManager {
    /// There is nothing to prepare.
    fn init(&mut self) -> (r: Result<()>)
        ensures
            r is Ok,
            final(self)@ == old(self)@,
    {
        Ok(())
    }

    /// Registers an application under its id, in place of one that had the id before.
    fn register_app(&mut self, config: App) -> (r: Result<()>)
        ensures
            r is Ok,
            final(self)@ == old(self)@.insert(config@.id, config@),
    {
        proof {
            use_type_invariant(&*self);
        }
        let mut apps = Table::new();
        std::mem::swap(&mut apps, &mut self.apps);
        apps.insert(config.id.clone(), config);
        self.apps = apps;
        Ok(())
    }

    /// Puts another configuration in place of that of an application. One that was not registered
    /// then is.
    fn update_app(&mut self, config: App) -> (r: Result<()>)
        ensures
            r is Ok,
            final(self)@ == old(self)@.insert(config@.id, config@),
    {
        proof {
            use_type_invariant(&*self);
        }
        let mut apps = Table::new();
        std::mem::swap(&mut apps, &mut self.apps);
        apps.insert(config.id.clone(), config);
        self.apps = apps;
        Ok(())
    }

    /// Removes the application with this id, if there is one.
    fn remove_app(&mut self, app_id: &str) -> (r: Result<()>)
        ensures
            r is Ok,
            final(self)@ == old(self)@.remove(app_id@),
    {
        proof {
            use_type_invariant(&*self);
        }
        let mut apps = Table::new();
        std::mem::swap(&mut apps, &mut self.apps);
        apps.remove(app_id);
        self.apps = apps;
        Ok(())
    }

    /// All applications, in no particular order. Each stands under its own id, so no two of them
    /// share one.
    fn get_apps(&self) -> (r: Result<Vec<App>>)
        ensures
            r is Ok,
            lists_all(self@, views(r->Ok_0@)),
            keyed_by_id(self@),
            distinct_ids(views(r->Ok_0@)),
    {
        let n: usize = self.apps.len();
        let ghost order = self.apps.order();
        let mut list: Vec<App> = Vec::new();
        let mut i: usize = 0;
        while i < n
            invariant
                i <= n,
                n == order.len(),
                order == self.apps.order(),
                views(list@) == order.take(i as int).map_values(|id: Seq<char>| self@[id]),
            decreases n - i,
        {
            let ghost before = list@;
            list.push(self.apps.value_at(i).duplicate());
            proof {
                assert(views(list@) =~= views(before).push(self@[order[i as int]]));
                assert(order.take(i + 1) =~= order.take(i as int).push(order[i as int]));
                assert(order.take(i + 1).map_values(|id: Seq<char>| self@[id]) =~= order.take(
                    i as int,
                ).map_values(|id: Seq<char>| self@[id]).push(self@[order[i as int]]));
            }
            i = i + 1;
        }
        proof {
            assert(order.take(i as int) =~= order);
            assert(named_order(order, self@.dom()));
            use_type_invariant(self);
            lemma_listed_once(self@, views(list@));
        }
        Ok(list)
    }

    /// Whether there is an application with this id.
    fn validate_key(&self, app_id: &str) -> (r: Result<bool>)
        ensures
            r == Ok::<bool, Error>(self@.contains_key(app_id@)),
    {
        Ok(self.apps.contains_key(app_id))
    }

    /// An application with this key. Which one is found where several have the key is left open.
    fn get_app_by_key(&self, key: &str) -> (r: Result<Option<App>>)
        ensures
            match r {
                Ok(Some(app)) => registered_with_key(self@, key@, app@),
                Ok(None) => !key_in_use(self@, key@),
                Err(_) => false,
            },
    {
        let n: usize = self.apps.len();
        let ghost order = self.apps.order();
        let mut i: usize = 0;
        while i < n
            invariant
                i <= n,
                n == order.len(),
                order == self.apps.order(),
                order.to_set() == self@.dom(),
                forall|j: int| 0 <= j < i ==> self@[#[trigger] order[j]].key != key@,
            decreases n - i,
        {
            let app = self.apps.value_at(i);
            if same(app.key.as_str(), key) {
                assert(self@.contains_key(order[i as int]));
                return Ok(Some(app.duplicate()));
            }
            i = i + 1;
        }
        proof {
            assert forall|id: Seq<char>| #[trigger] self@.contains_key(id) implies self@[id].key
                != key@ by {
                assert(order.to_set().contains(id));
                let j = choose|j: int| 0 <= j < order.len() && order[j] == id;
                assert(self@[order[j]].key != key@);
            }
        }
        Ok(None)
    }

    /// The application with this id.
    fn get_app(&self, app_id: &str) -> (r: Result<Option<App>>)
        ensures
            match r {
                Ok(app) => opt_view(app) == app_with_id(self@, app_id@),
                Err(_) => false,
            },
    {
        match self.apps.get(app_id) {
            Some(app) => Ok(Some(app.duplicate())),
            None => Ok(None),
        }
    }

    /// Whether `signature` is that of `body` under the secret of an application.
    fn validate_signature(&self, app_id: &str, signature: &str, body: &str) -> (r: Result<bool>)
        ensures
            outcome(r) == match app_with_id(self@, app_id@) {
                Some(app) => Ok(signature@ == crate::token::signature(app.secret, body@)),
                None => Err(ErrorView::InvalidAppKey),
            },
    {
        match self.apps.get(app_id) {
            Some(app) => {
                let expected = sign_text(app.secret.as_str(), body);
                Ok(same(signature, expected.as_str()))
            },
            None => Err(Error::InvalidAppKey),
        }
    }

    /// The signature of `payload` under `secret`.
    fn sign_payload(&self, secret: &str, payload: &str) -> (r: Result<String>)
        ensures
            outcome(r) == Ok::<Seq<char>, ErrorView>(signature(secret@, payload@)),
    {
        Ok(sign_text(secret, payload))
    }

    /// Whether a channel may have this name in an application: it is not too long, and holds
    /// letters, digits and a few other characters only.
    fn validate_channel_name(&self, app_id: &str, channel: &str) -> (r: Result<()>)
        ensures
            outcome(r) == match app_with_id(self@, app_id@) {
                Some(app) => channel_name_verdict(app, channel@),
                None => Err(ErrorView::InvalidAppKey),
            },
    {
        let app = match self.apps.get(app_id) {
            Some(app) => app,
            None => return Err(Error::InvalidAppKey),
        };
        let limit: u32 = match app.max_channel_name_length {
            Some(n) => n,
            None => 200,
        };
        if channel.as_bytes().len() > limit as usize {
            return Err(
                Error::ChannelError(
                    concat(
                        "Channel name too long. Max length is ",
                        decimal_text(limit as u64).as_str(),
                    ),
                ),
            );
        }
        let chars = crate::text::chars_of(channel);
        let mut i: usize = 0;
        while i < chars.len()
            invariant
                i <= chars@.len(),
                chars@ == channel@,
                app_with_id(self@, app_id@) == Some(app@),
                byte_len(channel@) <= name_limit(app@),
                forall|j: int| 0 <= j < i ==> name_char(#[trigger] channel@[j]),
            decreases chars@.len() - i,
        {
            let c = chars[i];
            let allowed = ('a' <= c && c <= 'z') || ('A' <= c && c <= 'Z') || ('0' <= c && c
                <= '9') || c == '-' || c == '_' || c == '=' || c == '@' || c == '.';
            if !allowed {
                assert(!name_char(channel@[i as int]));
                return Err(
                    Error::ChannelError("Channel name contains invalid characters".to_string()),
                );
            }
            i = i + 1;
        }
        Ok(())
    }

    /// Whether clients of the application with this key may send events. Which application counts
    /// where several have the key is left open.
    fn can_handle_client_events(&self, app_key: &str) -> (r: Result<bool>)
        ensures
            match r {
                Ok(may) => {
                    ||| !key_in_use(self@, app_key@) && !may
                    ||| exists|app: AppView| #[trigger]
                        registered_with_key(self@, app_key@, app) && may
                            == app.enable_client_messages
                },
                Err(_) => false,
            },
    {
        match self.get_app_by_key(app_key) {
            Ok(Some(app)) => {
                assert(registered_with_key(self@, app_key@, app@));
                Ok(app.enable_client_messages)
            },
            Ok(None) => Ok(false),
            Err(e) => Err(e),
        }
    }

    /// Whether `auth`, which has the form `key:signature`, authorizes a connection.
    fn validate_user_auth(&self, socket_id: &SocketId, auth: &str) -> (r: Result<bool>)
        ensures
            !auth@.contains(':') ==> outcome(r) == Err::<bool, ErrorView>(
                ErrorView::AuthError("Invalid auth format"@),
            ),
            forall|key: Seq<char>, given: Seq<char>| #[trigger]
                splits(auth@, ':', key, given) ==> outcome(r) == user_auth_verdict(
                    self@,
                    socket_id@,
                    key,
                    given,
                ),
    {
        match split_once(auth, ':') {
            None => {
                proof {
                    assert forall|key: Seq<char>, given: Seq<char>| !#[trigger] splits(
                        auth@,
                        ':',
                        key,
                        given,
                    ) by {
                        if splits(auth@, ':', key, given) {
                            assert(auth@[key.len() as int] == ':');
                        }
                    }
                }
                Err(Error::AuthError("Invalid auth format".to_string()))
            },
            Some((app_key, given)) => {
                proof {
                    assert(auth@[app_key@.len() as int] == ':');
                    assert forall|key: Seq<char>, rest: Seq<char>| #[trigger]
                        splits(auth@, ':', key, rest) implies key == app_key@ && rest == given@ by {
                        lemma_split_is_unique(auth@, ':', key, rest, app_key@, given@);
                    }
                }
                match self.apps.get(app_key.as_str()) {
                    Some(app) => {
                        let expected = sign_text(app.secret.as_str(), socket_id.0.as_str());
                        Ok(same(given.as_str(), expected.as_str()))
                    },
                    None => Err(Error::InvalidAppKey),
                }
            },
        }
    }
}

/// An application that was registered is found under its id, and no other is changed.
pub proof fn registered_app_is_found(
    before: Map<Seq<char>, AppView>,
    app: AppView,
    other: Seq<char>,
)
    ensures
        app_with_id(before.insert(app.id, app), app.id) == Some(app),
        key_in_use(before.insert(app.id, app), app.key),
        other != app.id ==> app_with_id(before.insert(app.id, app), other) == app_with_id(
            before,
            other,
        ),
{
    assert(before.insert(app.id, app).contains_key(app.id));
}

/// In a list of all applications, where each stands under its own id, each id has one application.
proof fn lemma_listed_once(apps: Map<Seq<char>, AppView>, list: Seq<AppView>)
    requires
        keyed_by_id(apps),
        lists_all(apps, list),
    ensures
        distinct_ids(list),
        forall|id: Seq<char>| #[trigger]
            apps.contains_key(id) ==> exists|i: int| 0 <= i < list.len() && #[trigger] list[i] == apps[id],
{
    let order = choose|order: Seq<Seq<char>>| #[trigger]
        named_order(order, apps.dom()) && list == order.map_values(|id: Seq<char>| apps[id]);
    assert forall|i: int| 0 <= i < list.len() implies (#[trigger] list[i]).id == order[i] by {
        assert(order.to_set().contains(order[i]));
        assert(apps.contains_key(order[i]));
    }
    assert forall|id: Seq<char>| #[trigger] apps.contains_key(id) implies exists|i: int|
        0 <= i < list.len() && #[trigger] list[i] == apps[id] by {
        assert(order.to_set().contains(id));
        let i = choose|i: int| 0 <= i < order.len() && order[i] == id;
        assert(list[i] == apps[id]);
    }
}

/// An application that was registered is listed once, and no other that is listed has its id. A
/// registry in which each application stands under its own id stays so.
pub proof fn registered_app_is_listed_once(
    before: Map<Seq<char>, AppView>,
    app: AppView,
    list: Seq<AppView>,
)
    requires
        keyed_by_id(before),
        lists_all(before.insert(app.id, app), list),
    ensures
        before.insert(app.id, app).contains_key(app.id),
        keyed_by_id(before.insert(app.id, app)),
        exists|i: int|
            0 <= i < list.len() && #[trigger] list[i] == app && forall|j: int|
                0 <= j < list.len() && (#[trigger] list[j]).id == app.id ==> j == i,
{
    let after = before.insert(app.id, app);
    lemma_listed_once(after, list);
    assert(after.contains_key(app.id));
    let i = choose|i: int| 0 <= i < list.len() && #[trigger] list[i] == after[app.id];
    assert(list[i] == app);
}

/// An application that was removed is not found, and no other is changed.
pub proof fn removed_app_is_gone(before: Map<Seq<char>, AppView>, id: Seq<char>, other: Seq<char>)
    ensures
        app_with_id(before.remove(id), id) == None::<AppView>,
        other != id ==> app_with_id(before.remove(id), other) == app_with_id(before, other),
{
}

/// A connection is authorized by the key of an application, a colon and the signature of the
/// connection's id, and by no other text with that key.
pub proof fn own_signature_authorizes(
    apps: Map<Seq<char>, AppView>,
    socket_id: Seq<char>,
    key: Seq<char>,
    given: Seq<char>,
)
    requires
        apps.contains_key(key),
    ensures
        user_auth_verdict(apps, socket_id, key, given) == Ok::<bool, ErrorView>(
            given == signature(apps[key].secret, socket_id),
        ),
        user_auth_verdict(apps, socket_id, key, signature(apps[key].secret, socket_id)) == Ok::<
            bool,
            ErrorView,
        >(true),
{
}

/// A channel may have a name of at most as many bytes as the application sets, or else two hundred,
/// that is made of letters, digits, hyphens, underscores, equals signs, at signs and dots. Of a longer
/// one the limit is told.
pub proof fn channel_name_is_accepted_by_length_and_characters(app: AppView, name: Seq<char>)
    ensures
        ({
            let limit: int = match app.max_channel_name_length {
                Some(n) => n as int,
                None => 200,
            };
            let fits = vstd::utf8::encode_utf8(name).len() <= limit;
            let clean = forall|i: int|
                0 <= i < name.len() ==> {
                    let c = #[trigger] name[i];
                    ||| 'a' <= c && c <= 'z'
                    ||| 'A' <= c && c <= 'Z'
                    ||| '0' <= c && c <= '9'
                    ||| c == '-' || c == '_' || c == '=' || c == '@' || c == '.'
                };
            channel_name_verdict(app, name) == if !fits {
                Err::<(), ErrorView>(
                    ErrorView::ChannelError(
                        "Channel name too long. Max length is "@ + decimal(limit as nat),
                    ),
                )
            } else if !clean {
                Err(ErrorView::ChannelError("Channel name contains invalid characters"@))
            } else {
                Ok(())
            }
        }),
{
    if exists|i: int| 0 <= i < name.len() && !name_char(#[trigger] name[i]) {
        let i = choose|i: int| 0 <= i < name.len() && !name_char(#[trigger] name[i]);
        assert(!name_char(name[i]));
    }
}

/// An application is found under its id, and nothing else is found there.
pub proof fn application_is_found_under_its_id(apps: Map<Seq<char>, AppView>, id: Seq<char>)
    ensures
        apps.contains_key(id) ==> app_with_id(apps, id) == Some(apps[id]),
        !apps.contains_key(id) ==> app_with_id(apps, id) is None,
        !apps.contains_key(id) ==> user_auth_verdict(apps, id, id, id) == Err::<bool, ErrorView>(
            ErrorView::InvalidAppKey,
        ),
{
}

} // verus!
