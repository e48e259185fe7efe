//! The configuration of the server, and the options that change it.

use vstd::prelude::*;

use crate::app::config::{App, AppView};
use crate::app::manager::AppManager;
use crate::app::memory_app_manager::{lists_all, MemoryAppManager};
use crate::cache::factory::{lowercase, to_lower};
use crate::connection::handler::{ConnectionHandler, ServerView};
use crate::error::{outcome, Error, ErrorView, Result};
use crate::json::{Json, JsonView};
use crate::model::{copy_option, opt_view, views, Duplicate};
use crate::text::{
    concat, contains, decimal, decimal_text, join, number_value, occurs, parse_number, pieces, same,
    split, starts_with, texts,
};

verus! {

/// Where the server listens, and whether it tells more of what it does.
pub struct ServerConfig {
    pub http_host: String,
    pub http_port: u16,
    pub metrics_host: String,
    pub metrics_port: u16,
    pub debug: bool,
}

/// The configuration by its view.
#[verifier::ext_equal]
pub struct ConfigView {
    pub http_host: Seq<char>,
    pub http_port: u16,
    pub metrics_host: Seq<char>,
    pub metrics_port: u16,
    pub debug: bool,
}

impl View for ServerConfig {
    type V = ConfigView;

    open spec fn view(&self) -> ConfigView {
        ConfigView {
            http_host: self.http_host@,
            http_port: self.http_port,
            metrics_host: self.metrics_host@,
            metrics_port: self.metrics_port,
            debug: self.debug,
        }
    }
}

impl Default for ServerConfig {
    fn default() -> (r: Self)
        ensures
            r@ == (ConfigView {
                http_host: "127.0.0.1"@,
                http_port: 6001,
                metrics_host: "127.0.0.1"@,
                metrics_port: 9601,
                debug: false,
            }),
    {
        ServerConfig {
            http_host: "127.0.0.1".to_string(),
            http_port: 6001,
            metrics_host: "127.0.0.1".to_string(),
            metrics_port: 9601,
            debug: false,
        }
    }
}

/// Whether a text asks the server to tell more of what it does.
pub fn debug_flag(text: &str) -> (r: bool)
    ensures
        r == (text@ == "1"@ || lowercase(text@) == "true"@),
{
    if same(text, "1") {
        return true;
    }
    let low = to_lower(text);
    same(low.as_str(), "true")
}

/// The value of an option.
pub enum OptionValue {
    /// A truth value.
    Bool(bool),
    /// A number: its text, its value where that is a natural number, and whether it is whole.
    Number { text: String, natural: Option<u64>, whole: bool },
    /// A text.
    Text(String),
    /// A list of applications, with nothing in place of those that are not valid.
    Apps(Vec<Option<App>>),
    /// Any other value.
    Other,
}

/// The value of an option by its view.
#[verifier::ext_equal]
pub enum ValueView {
    Bool(bool),
    Number { text: Seq<char>, natural: Option<u64>, whole: bool },
    Text(Seq<char>),
    Apps(Seq<Option<AppView>>),
    Other,
}

impl View for OptionValue {
    type V = ValueView;

    open spec fn view(&self) -> ValueView {
        match self {
            OptionValue::Bool(b) => ValueView::Bool(*b),
            OptionValue::Number { text, natural, whole } => ValueView::Number {
                text: text@,
                natural: *natural,
                whole: *whole,
            },
            OptionValue::Text(t) => ValueView::Text(t@),
            OptionValue::Apps(list) => ValueView::Apps(
                list@.map_values(|app: Option<App>| opt_view(app)),
            ),
            OptionValue::Other => ValueView::Other,
        }
    }
}

/// The value of an option that is written as `json`, where `apps` is what the elements of an array
/// read as.
pub open spec fn value_read(json: JsonView, apps: Seq<Option<AppView>>) -> ValueView {
    match json {
        JsonView::Null => ValueView::Other,
        JsonView::Bool(b) => ValueView::Bool(b),
        JsonView::Integer(_) | JsonView::Decimal(_) => ValueView::Number {
            text: json.digits(),
            natural: json.as_u64(),
            whole: json.is_i64() || json.as_u64() is Some,
        },
        JsonView::Str(s) => ValueView::Text(s),
        JsonView::Array(_) => ValueView::Apps(apps),
        JsonView::Object(_) => ValueView::Other,
    }
}

/// The value of an option that is written as `json`, where `apps` is what the elements of an array
/// read as.
pub fn read_value(json: &Json, apps: &Vec<Option<App>>) -> (r: OptionValue)
    ensures
        r@ == value_read(json@, apps@.map_values(|app: Option<App>| opt_view(app))),
{
    match json.as_bool() {
        Some(b) => return OptionValue::Bool(b),
        None => {},
    }
    match json.as_str() {
        Some(text) => return OptionValue::Text(text),
        None => {},
    }
    match json.number_text() {
        Some(text) => {
            let natural = json.as_u64();
            return OptionValue::Number { text, natural, whole: json.is_i64() || natural.is_some() };
        },
        None => {},
    }
    if json.elements().is_some() {
        let copy = copy_apps(apps);
        assert(copy@.map_values(|app: Option<App>| opt_view(app)) =~= apps@.map_values(
            |app: Option<App>| opt_view(app),
        ));
        return OptionValue::Apps(copy);
    }
    OptionValue::Other
}

/// A copy of a list of applications.
fn copy_apps(apps: &Vec<Option<App>>) -> (r: Vec<Option<App>>)
    ensures
        r@.len() == apps@.len(),
        forall|i: int| 0 <= i < apps@.len() ==> opt_view(#[trigger] r@[i]) == opt_view(apps@[i]),
{
    let mut r: Vec<Option<App>> = Vec::new();
    let mut i: usize = 0;
    while i < apps.len()
        invariant
            i <= apps@.len(),
            r@.len() == i,
            forall|j: int| 0 <= j < i ==> opt_view(#[trigger] r@[j]) == opt_view(apps@[j]),
        decreases apps@.len() - i,
    {
        r.push(copy_option(&apps[i]));
        i = i + 1;
    }
    r
}

/// The value that an option is given: the id of an application is a text, even where a whole number
/// is written.
pub open spec fn option_value(key: Seq<char>, value: ValueView) -> ValueView {
    match value {
        ValueView::Number { text, whole: true, .. } => {
            if "app_manager.array.apps."@.is_prefix_of(key) && occurs(key, ".id"@) {
                ValueView::Text(text)
            } else {
                value
            }
        },
        _ => value,
    }
}

/// The value that an option is given.
pub fn normalize(key: &str, value: OptionValue) -> (r: OptionValue)
    ensures
        r@ == option_value(key@, value@),
{
    match value {
        OptionValue::Number { text, natural, whole } => {
            if whole && starts_with(key, "app_manager.array.apps.") && contains(key, ".id") {
                OptionValue::Text(text)
            } else {
                OptionValue::Number { text, natural, whole }
            }
        },
        other => other,
    }
}

/// The applications of a list without those that are not valid.
pub open spec fn valid_apps(list: Seq<Option<AppView>>) -> Seq<AppView>
    decreases list.len(),
{
    if list.len() == 0 {
        Seq::empty()
    } else {
        match list.last() {
            Some(app) => valid_apps(list.drop_last()).push(app),
            None => valid_apps(list.drop_last()),
        }
    }
}

/// The applications of a list without those that are not valid.
pub fn drop_invalid(list: &Vec<Option<App>>) -> (r: Vec<App>)
    ensures
        views(r@) == valid_apps(list@.map_values(|app: Option<App>| opt_view(app))),
{
    let ghost all = list@.map_values(|app: Option<App>| opt_view(app));
    let mut r: Vec<App> = Vec::new();
    let mut i: usize = 0;
    proof {
        assert(all.take(0) =~= Seq::<Option<AppView>>::empty());
        assert(views(r@) =~= Seq::<AppView>::empty());
    }
    while i < list.len()
        invariant
            i <= list@.len(),
            all == list@.map_values(|app: Option<App>| opt_view(app)),
            views(r@) == valid_apps(all.take(i as int)),
        decreases list@.len() - i,
    {
        let ghost before = r@;
        proof {
            assert(all.take(i + 1).drop_last() =~= all.take(i as int));
            assert(all.take(i + 1).last() == opt_view(list@[i as int]));
        }
        match &list[i] {
            Some(app) => {
                let copy = app.duplicate();
                r.push(copy);
                assert(views(r@) =~= views(before).push(app@));
            },
            None => {},
        }
        i = i + 1;
    }
    assert(all.take(i as int) =~= all);
    r
}

/// The applications after `apps` were registered, one after the other.
pub open spec fn registered(
    known: Map<Seq<char>, AppView>,
    apps: Seq<AppView>,
) -> Map<Seq<char>, AppView>
    decreases apps.len(),
{
    if apps.len() == 0 {
        known
    } else {
        registered(known, apps.drop_last()).insert(apps.last().id, apps.last())
    }
}

impl AppView {
    /// The application with another value of a field. A value of the wrong kind changes nothing.
    pub open spec fn with_field(self, field: Seq<char>, value: ValueView) -> AppView {
        if field == "id"@ {
            match value {
                ValueView::Text(id) => AppView { id, ..self },
                ValueView::Number { text, .. } => AppView { id: text, ..self },
                _ => self,
            }
        } else if field == "key"@ {
            match value {
                ValueView::Text(key) => AppView { key, ..self },
                _ => self,
            }
        } else if field == "secret"@ {
            match value {
                ValueView::Text(secret) => AppView { secret, ..self },
                _ => self,
            }
        } else if field == "enable_client_messages"@ {
            match value {
                ValueView::Bool(b) => AppView { enable_client_messages: b, ..self },
                _ => self,
            }
        } else if field == "enabled"@ {
            match value {
                ValueView::Bool(b) => AppView { enabled: b, ..self },
                _ => self,
            }
        } else {
            self
        }
    }
}

/// The position that a text writes, where it can be one.
pub open spec fn position(text: Seq<char>) -> Option<int> {
    match number_value(text) {
        Some(n) => if n <= usize::MAX {
            Some(n as int)
        } else {
            None
        },
        None => None,
    }
}

/// Whether `after` are the applications after an option for the list of applications was set, whose
/// path goes on with `parts`. Which application stands at which position of the list is left open.
pub open spec fn apps_configured(
    before: Map<Seq<char>, AppView>,
    parts: Seq<Seq<char>>,
    value: ValueView,
    after: Map<Seq<char>, AppView>,
) -> bool {
    if parts.len() == 0 {
        after == match value {
            ValueView::Apps(list) => registered(before, valid_apps(list)),
            _ => before,
        }
    } else {
        match position(parts[0]) {
            Some(index) => if parts.len() > 1 {
                exists|list: Seq<AppView>| #[trigger]
                    lists_all(before, list) && after == if index < list.len() {
                        let app = list[index].with_field(parts[1], value);
                        before.insert(app.id, app)
                    } else {
                        before
                    }
            } else {
                after == before
            },
            None => after == before,
        }
    }
}

/// What an option does to the configuration, where `address` says whether the new address could be
/// read.
pub open spec fn configured(
    config: ConfigView,
    path: Seq<char>,
    value: ValueView,
    address: std::result::Result<(), String>,
) -> std::result::Result<ConfigView, ErrorView> {
    let name = pieces(path, '.')[0];
    if name == "debug"@ {
        match value {
            ValueView::Bool(b) => Ok(ConfigView { debug: b, ..config }),
            _ => Ok(config),
        }
    } else if name == "host"@ {
        match value {
            ValueView::Text(host) => match address {
                Ok(_) => Ok(ConfigView { http_host: host, ..config }),
                Err(e) => Err(ErrorView::Config("Invalid host: "@ + e@)),
            },
            _ => Ok(config),
        }
    } else if name == "port"@ {
        match value {
            ValueView::Number { natural: Some(n), .. } => Ok(
                ConfigView { http_port: n as u16, ..config },
            ),
            _ => Ok(config),
        }
    } else {
        Ok(config)
    }
}

/// Whether `after` are the applications after an option was set.
pub open spec fn apps_after(
    before: Map<Seq<char>, AppView>,
    path: Seq<char>,
    value: ValueView,
    after: Map<Seq<char>, AppView>,
) -> bool {
    let parts = pieces(path, '.');
    if parts.len() > 2 && parts[0] == "app_manager"@ && parts[1] == "array"@ && parts[2]
        == "apps"@ {
        apps_configured(before, parts.skip(3), value, after)
    } else {
        after == before
    }
}

/// Registers applications, in place of those that have the same ids.
pub fn register_apps(manager: &mut MemoryAppManager, apps: &Vec<App>)
    ensures
        final(manager)@ == registered(old(manager)@, views(apps@)),
{
    let ghost all = views(apps@);
    let mut i: usize = 0;
    assert(all.take(0) =~= Seq::<AppView>::empty());
    while i < apps.len()
        invariant
            i <= apps@.len(),
            all == views(apps@),
            manager@ == registered(old(manager)@, all.take(i as int)),
        decreases apps@.len() - i,
    {
        proof {
            assert(all.take(i + 1).drop_last() =~= all.take(i as int));
            assert(all.take(i + 1).last() == apps@[i as int]@);
        }
        let known = manager.find(apps[i].id.as_str()).is_some();
        if known {
            let _ = manager.update_app(apps[i].duplicate());
        } else {
            let _ = manager.register_app(apps[i].duplicate());
        }
        i = i + 1;
    }
    assert(all.take(i as int) =~= all);
}

/// The application with another value of a field.
fn change_field(app: &App, field: &str, value: &OptionValue) -> (r: App)
    ensures
        r@ == app@.with_field(field@, value@),
{
    let mut changed = app.duplicate();
    if same(field, "id") {
        match value {
            OptionValue::Text(id) => {
                changed.id = id.clone();
            },
            OptionValue::Number { text, .. } => {
                changed.id = text.clone();
            },
            _ => {},
        }
    } else if same(field, "key") {
        match value {
            OptionValue::Text(key) => {
                changed.key = key.clone();
            },
            _ => {},
        }
    } else if same(field, "secret") {
        match value {
            OptionValue::Text(secret) => {
                changed.secret = secret.clone();
            },
            _ => {},
        }
    } else if same(field, "enable_client_messages") {
        match value {
            OptionValue::Bool(b) => {
                changed.enable_client_messages = *b;
            },
            _ => {},
        }
    } else if same(field, "enabled") {
        match value {
            OptionValue::Bool(b) => {
                changed.enabled = *b;
            },
            _ => {},
        }
    }
    changed
}

/// Sets an option for the list of applications, whose path goes on with the parts from `from` on:
/// the whole list, or a field of the application at a position.
pub fn handle_apps_configuration(
    manager: &mut MemoryAppManager,
    parts: &Vec<String>,
    from: usize,
    value: &OptionValue,
)
    requires
        from <= parts@.len(),
    ensures
        apps_configured(
            old(manager)@,
            texts(parts@).skip(from as int),
            value@,
            final(manager)@,
        ),
{
    let ghost rest = texts(parts@).skip(from as int);
    if from == parts.len() {
        match value {
            OptionValue::Apps(list) => register_apps(manager, &drop_invalid(list)),
            _ => {},
        }
        return;
    }
    assert(rest[0] == parts@[from as int]@);
    let index: usize = match parse_number(parts[from].as_str(), usize::MAX as u64) {
        Some(n) => n as usize,
        None => return,
    };
    if parts.len() - from < 2 {
        return;
    }
    assert(rest[1] == parts@[from + 1]@);
    let list = match manager.get_apps() {
        Ok(list) => list,
        Err(_) => return,
    };
    assert(lists_all(manager@, views(list@)));
    assert(views(list@).len() == list@.len());
    if index < list.len() {
        assert(views(list@)[index as int] == list@[index as int]@);
        let changed = change_field(&list[index], parts[from + 1].as_str(), value);
        let _ = manager.update_app(changed);
    }
}

/// Sets an option for the registry of applications, whose path goes on with the parts from `from`
/// on.
pub fn handle_app_manager_options(
    manager: &mut MemoryAppManager,
    parts: &Vec<String>,
    from: usize,
    value: &OptionValue,
)
    requires
        from <= parts@.len(),
    ensures
        ({
            let rest = texts(parts@).skip(from as int);
            if rest.len() > 1 && rest[0] == "array"@ && rest[1] == "apps"@ {
                apps_configured(old(manager)@, rest.skip(2), value@, final(manager)@)
            } else {
                final(manager)@ == old(manager)@
            }
        }),
{
    let ghost rest = texts(parts@).skip(from as int);
    if parts.len() - from < 2 {
        return;
    }
    assert(rest[0] == parts@[from as int]@);
    assert(rest[1] == parts@[from + 1]@);
    if same(parts[from].as_str(), "array") && same(parts[from + 1].as_str(), "apps") {
        assert(rest.skip(2) =~= texts(parts@).skip(from + 2));
        handle_apps_configuration(manager, parts, from + 2, value);
    }
}

/// The address that has to be read before an option is set, if any: that of a new host.
pub fn address_to_read(config: &ServerConfig, path: &str, value: &Json) -> (r: Option<String>)
    ensures
        opt_view(r) == match value@ {
            JsonView::Str(host) => if pieces(path@, '.')[0] == "host"@ {
                Some(host + ":"@ + decimal(config@.http_port as nat))
            } else {
                None::<Seq<char>>
            },
            _ => None::<Seq<char>>,
        },
{
    let parts = split(path, '.');
    proof {
        lemma_some_piece(path@, '.');
        assert(texts(parts@)[0] == parts@[0]@);
        assert(texts(parts@).len() == parts@.len());
    }
    match value.as_str() {
        Some(host) => if same(parts[0].as_str(), "host") {
            Some(join(host.as_str(), ":", decimal_text(config.http_port as u64).as_str()))
        } else {
            None
        },
        None => None,
    }
}

/// A text has at least one piece.
proof fn lemma_some_piece(s: Seq<char>, c: char)
    ensures
        pieces(s, c).len() > 0,
    decreases s.len(),
{
    if s.len() > 0 {
        lemma_some_piece(s.drop_last(), c);
    }
}

/// Sets the option with this path. `address` says whether the address of a new host could be read,
/// and counts for such an option only. An option that is not known changes nothing.
pub fn set_option(
    config: &mut ServerConfig,
    manager: &mut MemoryAppManager,
    path: &str,
    value: &OptionValue,
    address: std::result::Result<(), String>,
) -> (r: Result<()>)
    ensures
        match configured(old(config)@, path@, value@, address) {
            Ok(after) => r is Ok && final(config)@ == after,
            Err(e) => r is Err && r->Err_0@ == e && final(config)@ == old(config)@,
        },
        apps_after(old(manager)@, path@, value@, final(manager)@),
{
    let parts = split(path, '.');
    proof {
        lemma_some_piece(path@, '.');
        assert(texts(parts@).len() == parts@.len());
        assert forall|i: int| 0 <= i < parts@.len() implies #[trigger] texts(parts@)[i]
            == parts@[i]@ by {}
        lemma_option_names();
    }
    let name = parts[0].as_str();
    assert(pieces(path@, '.')[0] == name@);
    if same(name, "debug") {
        match value {
            OptionValue::Bool(b) => {
                config.debug = *b;
            },
            _ => {},
        }
    } else if same(name, "host") {
        match value {
            OptionValue::Text(host) => match address {
                Ok(_) => {
                    config.http_host = host.clone();
                },
                Err(e) => return Err(Error::Config(concat("Invalid host: ", e.as_str()))),
            },
            _ => {},
        }
    } else if same(name, "port") {
        match value {
            OptionValue::Number { natural: Some(n), .. } => {
                config.http_port = *n as u16;
            },
            _ => {},
        }
    } else if same(name, "app_manager") {
        proof {
            let rest = texts(parts@).skip(1);
            if parts@.len() > 1 {
                assert(rest[0] == texts(parts@)[1]);
            }
            if parts@.len() > 2 {
                assert(rest[1] == texts(parts@)[2]);
            }
            assert(rest.len() == parts@.len() - 1);
            if rest.len() > 1 {
                assert(rest.skip(2) =~= texts(parts@).skip(3));
            }
        }
        handle_app_manager_options(manager, &parts, 1, value);
    }
    Ok(())
}

/// The names of the options differ.
proof fn lemma_option_names()
    ensures
        "app_manager"@ != "debug"@,
        "app_manager"@ != "host"@,
        "app_manager"@ != "port"@,
{
    reveal_strlit("app_manager");
    reveal_strlit("debug");
    reveal_strlit("host");
    reveal_strlit("port");
    assert("app_manager"@.len() == 11);
    assert("debug"@.len() == 5);
    assert("host"@.len() == 4);
    assert("port"@.len() == 4);
}

/// An option to be set.
pub struct OptionInput {
    pub path: String,
    /// The value as it is written.
    pub value: Json,
    /// What the elements of the value read as, where it is an array.
    pub apps: Vec<Option<App>>,
    /// Whether the address of a new host could be read.
    pub address: std::result::Result<(), String>,
}

impl OptionInput {
    /// The value that the option is given.
    pub open spec fn given(self) -> ValueView {
        option_value(
            self.path@,
            value_read(self.value@, self.apps@.map_values(|app: Option<App>| opt_view(app))),
        )
    }
}

/// What options change: the configuration, and the applications.
#[verifier::ext_equal]
pub struct SettingsView {
    pub config: ConfigView,
    pub apps: Map<Seq<char>, AppView>,
}

/// Whether `steps` are the settings from the first to those after the last option that could be set:
/// options are set one after the other, up to the first that gives an error, which `r` is.
pub open spec fn options_set(
    options: Seq<OptionInput>,
    steps: Seq<SettingsView>,
    r: std::result::Result<(), ErrorView>,
) -> bool {
    let n = steps.len() - 1;
    &&& 0 <= n <= options.len()
    &&& forall|i: int|
        0 <= i < n ==> configured(
            (#[trigger] steps[i]).config,
            options[i].path@,
            options[i].given(),
            options[i].address,
        ) == Ok::<ConfigView, ErrorView>(steps[i + 1].config) && apps_after(
            steps[i].apps,
            options[i].path@,
            options[i].given(),
            steps[i + 1].apps,
        )
    &&& match r {
        Ok(_) => n == options.len(),
        Err(e) => n < options.len() && configured(
            steps[n].config,
            options[n].path@,
            options[n].given(),
            options[n].address,
        ) == Err::<ConfigView, ErrorView>(e),
    }
}

/// Sets options, one after the other. The first that gives an error ends that; what was set before
/// stays.
pub fn set_options(
    config: &mut ServerConfig,
    manager: &mut MemoryAppManager,
    options: &Vec<OptionInput>,
) -> (r: Result<()>)
    ensures
        exists|steps: Seq<SettingsView>|
            {
                &&& #[trigger] options_set(options@, steps, outcome(r))
                &&& steps[0] == (SettingsView { config: old(config)@, apps: old(manager)@ })
                &&& steps.last() == (SettingsView { config: final(config)@, apps: final(manager)@ })
            },
{
    let ghost mut steps: Seq<SettingsView> = seq![
        SettingsView { config: config@, apps: manager@ },
    ];
    let mut i: usize = 0;
    while i < options.len()
        invariant
            i <= options@.len(),
            steps.len() == i + 1,
            steps[0] == (SettingsView { config: old(config)@, apps: old(manager)@ }),
            steps[i as int] == (SettingsView { config: config@, apps: manager@ }),
            forall|j: int|
                0 <= j < i ==> configured(
                    (#[trigger] steps[j]).config,
                    options@[j].path@,
                    options@[j].given(),
                    options@[j].address,
                ) == Ok::<ConfigView, ErrorView>(steps[j + 1].config) && apps_after(
                    steps[j].apps,
                    options@[j].path@,
                    options@[j].given(),
                    steps[j + 1].apps,
                ),
        decreases options@.len() - i,
    {
        let option = &options[i];
        let path = option.path.as_str();
        let value = normalize(path, read_value(&option.value, &option.apps));
        assert(value@ == options@[i as int].given());
        let address = match &option.address {
            Ok(_) => Ok(()),
            Err(text) => Err(text.clone()),
        };
        proof {
            lemma_same_address(config@, path@, value@, address, option.address);
        }
        match set_option(config, manager, path, &value, address) {
            Ok(_) => {
                proof {
                    steps = steps.push(SettingsView { config: config@, apps: manager@ });
                }
            },
            Err(e) => {
                proof {
                    lemma_refused_option(steps[i as int].config, path@, value@, option.address);
                    assert(steps.last() == (SettingsView { config: config@, apps: manager@ }));
                    assert(options_set(options@, steps, Err(e@)));
                }
                return Err(e);
            },
        }
        i = i + 1;
    }
    assert(options_set(options@, steps, Ok(())));
    Ok(())
}

/// What an option does depends on the text of the error alone that its address gave.
proof fn lemma_same_address(
    config: ConfigView,
    path: Seq<char>,
    value: ValueView,
    a: std::result::Result<(), String>,
    b: std::result::Result<(), String>,
)
    requires
        a is Ok <==> b is Ok,
        a is Err ==> a->Err_0@ == b->Err_0@,
    ensures
        configured(config, path, value, a) == configured(config, path, value, b),
{
}

/// An option that gives an error is that for the host, which is none for applications.
proof fn lemma_refused_option(
    config: ConfigView,
    path: Seq<char>,
    value: ValueView,
    address: std::result::Result<(), String>,
)
    requires
        configured(config, path, value, address) is Err,
    ensures
        pieces(path, '.')[0] != "app_manager"@,
{
    lemma_option_names();
}

/// The application that every server has at its start.
pub open spec fn demo_app() -> AppView {
    AppView {
        id: "demo-app"@,
        key: "demo-key"@,
        secret: "demo-secret"@,
        enable_client_messages: true,
        enabled: true,
        ..AppView::blank()
    }
}

/// Prepares a server: registers the application that every server has at its start.
pub fn init(handler: &mut ConnectionHandler) -> (r: Result<()>)
    ensures
        r is Ok,
        final(handler)@ == (ServerView {
            apps: old(handler)@.apps.insert(demo_app().id, demo_app()),
            ..old(handler)@
        }),
{
    let mut app = App::default();
    app.id = "demo-app".to_string();
    app.key = "demo-key".to_string();
    app.secret = "demo-secret".to_string();
    app.enable_client_messages = true;
    app.enabled = true;
    assert(app@ == demo_app());
    handler.app_manager.register_app(app)
}

/// Every application of a list that was registered is known afterwards, and of several with one id
/// the last counts; an application with no id of the list is as it was.
pub proof fn registered_apps_are_known(
    known: Map<Seq<char>, AppView>,
    apps: Seq<AppView>,
    i: int,
    other: Seq<char>,
)
    requires
        0 <= i < apps.len(),
        forall|j: int| i < j < apps.len() ==> (#[trigger] apps[j]).id != apps[i].id,
    ensures
        registered(known, apps).contains_key(apps[i].id),
        registered(known, apps)[apps[i].id] == apps[i],
        (forall|j: int| 0 <= j < apps.len() ==> (#[trigger] apps[j]).id != other) ==> (registered(
            known,
            apps,
        ).contains_key(other) == known.contains_key(other) && registered(known, apps)[other]
            == known[other]),
    decreases apps.len(),
{
    let rest = apps.drop_last();
    let last = apps.len() - 1;
    assert forall|j: int| 0 <= j < rest.len() implies rest[j] == apps[j] by {}
    if i < last {
        registered_apps_are_known(known, rest, i, other);
        assert(apps[last].id != apps[i].id);
    } else {
        lemma_others_stay(known, rest, other);
    }
}

/// An application with no id of a list that was registered is as it was.
proof fn lemma_others_stay(known: Map<Seq<char>, AppView>, apps: Seq<AppView>, other: Seq<char>)
    ensures
        (forall|j: int| 0 <= j < apps.len() ==> (#[trigger] apps[j]).id != other) ==> (registered(
            known,
            apps,
        ).contains_key(other) == known.contains_key(other) && registered(known, apps)[other]
            == known[other]),
    decreases apps.len(),
{
    if apps.len() > 0 {
        let rest = apps.drop_last();
        lemma_others_stay(known, rest, other);
        assert forall|j: int| 0 <= j < rest.len() implies rest[j] == apps[j] by {}
    }
}

/// What an option does is told by what stands before the first dot of its path: `debug` sets whether to debug, `host` the
/// host where its address could be read, and `port` the port, of which the lowest sixteen bits count.
/// Each changes nothing else, a value of another kind changes nothing, and no other name does.
pub proof fn options_set_what_they_name(
    config: ConfigView,
    path: Seq<char>,
    name: Seq<char>,
    value: ValueView,
    address: std::result::Result<(), String>,
)
    requires
        pieces(path, '.')[0] == name,
    ensures
        name == "debug"@ ==> configured(config, path, value, address) == Ok::<
            ConfigView,
            ErrorView,
        >(
            ConfigView {
                http_host: config.http_host,
                http_port: config.http_port,
                metrics_host: config.metrics_host,
                metrics_port: config.metrics_port,
                debug: match value {
                    ValueView::Bool(b) => b,
                    _ => config.debug,
                },
            },
        ),
        name == "port"@ ==> configured(config, path, value, address) == Ok::<
            ConfigView,
            ErrorView,
        >(
            ConfigView {
                http_host: config.http_host,
                http_port: match value {
                    ValueView::Number { natural: Some(n), .. } => n as u16,
                    _ => config.http_port,
                },
                metrics_host: config.metrics_host,
                metrics_port: config.metrics_port,
                debug: config.debug,
            },
        ),
        name == "host"@ ==> configured(config, path, value, address) == match (value, address) {
            (ValueView::Text(host), Ok(_)) => Ok::<ConfigView, ErrorView>(
                ConfigView {
                    http_host: host,
                    http_port: config.http_port,
                    metrics_host: config.metrics_host,
                    metrics_port: config.metrics_port,
                    debug: config.debug,
                },
            ),
            (ValueView::Text(_), Err(e)) => Err(ErrorView::Config("Invalid host: "@ + e@)),
            _ => Ok(config),
        },
        name != "debug"@ && name != "port"@ && name != "host"@ ==> configured(
            config,
            path,
            value,
            address,
        ) == Ok::<ConfigView, ErrorView>(config),
{
    reveal_strlit("debug");
    reveal_strlit("host");
    reveal_strlit("port");
    assert("debug"@.len() == 5);
    assert("host"@[0] == 'h');
    assert("port"@[0] == 'p');
}

/// A text without a separator is one piece.
proof fn lemma_one_piece(s: Seq<char>, c: char)
    requires
        !s.contains(c),
    ensures
        pieces(s, c) == seq![s],
    decreases s.len(),
{
    if s.len() > 0 {
        let rest = s.drop_last();
        assert(s[s.len() - 1] == s.last());
        if rest.contains(c) {
            let i = choose|i: int| 0 <= i < rest.len() && rest[i] == c;
            assert(s[i] == c);
        }
        lemma_one_piece(rest, c);
        assert(rest.push(s.last()) =~= s);
        assert(pieces(s, c) =~= seq![s]);
    } else {
        assert(pieces(s, c) =~= seq![s]);
    }
}

/// What an option's value reads as: a truth value, a number with its text and, where it is whole and
/// not negative, its value, a text, or a list of applications; null and objects are nothing. A whole
/// number that stands for the id of an application is its text.
pub proof fn option_value_reads_as_it_is_written(
    b: bool,
    n: int,
    s: Seq<char>,
    list: Seq<JsonView>,
    members: Map<Seq<char>, JsonView>,
    apps: Seq<Option<AppView>>,
    key: Seq<char>,
)
    ensures
        value_read(JsonView::Bool(b), apps) == ValueView::Bool(b),
        value_read(JsonView::Str(s), apps) == ValueView::Text(s),
        value_read(JsonView::Array(list), apps) == ValueView::Apps(apps),
        value_read(JsonView::Null, apps) == ValueView::Other,
        value_read(JsonView::Object(members), apps) == ValueView::Other,
        value_read(JsonView::Decimal(s), apps) == (ValueView::Number {
            text: s,
            natural: None,
            whole: false,
        }),
        0 <= n <= u64::MAX ==> value_read(JsonView::Integer(n), apps) == (ValueView::Number {
            text: decimal(n as nat),
            natural: Some(n as u64),
            whole: true,
        }),
        i64::MIN <= n < 0 ==> value_read(JsonView::Integer(n), apps) == (ValueView::Number {
            text: "-"@ + decimal((-n) as nat),
            natural: None,
            whole: true,
        }),
        0 <= n <= u64::MAX ==> option_value(key, value_read(JsonView::Integer(n), apps)) == if
            "app_manager.array.apps."@.is_prefix_of(key) && occurs(key, ".id"@) {
            ValueView::Text(decimal(n as nat))
        } else {
            ValueView::Number { text: decimal(n as nat), natural: Some(n as u64), whole: true }
        },
        option_value(key, ValueView::Text(s)) == ValueView::Text(s),
        option_value(key, ValueView::Bool(b)) == ValueView::Bool(b),
        option_value(key, ValueView::Apps(apps)) == ValueView::Apps(apps),
{
}

/// Of the applications that an option lists, the valid ones are registered, each under its id, the
/// last of those with one id; the applications that were known under other ids stay.
pub proof fn listed_applications_are_registered(
    known: Map<Seq<char>, AppView>,
    list: Seq<Option<AppView>>,
    id: Seq<char>,
    i: int,
)
    requires
        -1 <= i < list.len(),
        i >= 0 ==> (list[i] matches Some(app) && app.id == id),
        forall|j: int|
            i < j < list.len() ==> !((#[trigger] list[j]) matches Some(app) && app.id == id),
    ensures
        ({
            let after = registered(known, valid_apps(list));
            &&& i >= 0 ==> after.contains_key(id) && after[id] == list[i]->0
            &&& i < 0 ==> after.contains_key(id) == known.contains_key(id)
            &&& i < 0 && known.contains_key(id) ==> after[id] == known[id]
        }),
    decreases list.len(),
{
    if list.len() > 0 {
        let rest = list.drop_last();
        let last = list.len() - 1;
        assert(list[last] == list.last());
        if list.last() is Some {
            let app = list.last()->0;
            let before = valid_apps(rest);
            assert(before.push(app).drop_last() =~= before);
            assert(before.push(app).last() == app);
        }
        if i < last {
            assert forall|j: int| i < j < rest.len() implies !((#[trigger] rest[j]) matches Some(
                app,
            ) && app.id == id) by {
                assert(!(list[j] matches Some(app) && app.id == id));
            }
            listed_applications_are_registered(known, rest, id, i);
        }
    }
}

/// A field of an application that an option names takes the option's value, where that is of the
/// field's kind; the other fields stay as they are.
pub proof fn option_sets_one_field_of_an_application(
    app: AppView,
    text: Seq<char>,
    natural: Option<u64>,
    whole: bool,
    b: bool,
    field: Seq<char>,
    value: ValueView,
)
    ensures
        app.with_field("id"@, ValueView::Text(text)) == (AppView { id: text, ..app }),
        app.with_field("id"@, ValueView::Number { text, natural, whole }) == (AppView {
            id: text,
            ..app
        }),
        app.with_field("key"@, ValueView::Text(text)) == (AppView { key: text, ..app }),
        app.with_field("secret"@, ValueView::Text(text)) == (AppView { secret: text, ..app }),
        app.with_field("enable_client_messages"@, ValueView::Bool(b)) == (AppView {
            enable_client_messages: b,
            ..app
        }),
        app.with_field("enabled"@, ValueView::Bool(b)) == (AppView { enabled: b, ..app }),
        value is Apps || value is Other ==> app.with_field(field, value) == app,
        field != "id"@ && field != "key"@ && field != "secret"@ && field
            != "enable_client_messages"@ && field != "enabled"@ ==> app.with_field(field, value)
            == app,
{
    reveal_strlit("id");
    reveal_strlit("key");
    reveal_strlit("secret");
    reveal_strlit("enable_client_messages");
    reveal_strlit("enabled");
    assert("id"@.len() == 2);
    assert("key"@.len() == 3);
    assert("secret"@.len() == 6);
    assert("enable_client_messages"@.len() == 22);
    assert("enabled"@.len() == 7);
}

/// Options are set in their order, from the first settings on, until one gives an error: where none
/// does, all are set.
pub proof fn options_are_set_in_order(
    options: Seq<OptionInput>,
    steps: Seq<SettingsView>,
    r: std::result::Result<(), ErrorView>,
    i: int,
)
    requires
        options_set(options, steps, r),
        0 <= i < options.len(),
        i < steps.len(),
        !options[i].path@.contains('.'),
        options[i].path@ == "port"@ || options[i].path@ == "debug"@,
    ensures
        i + 1 < steps.len(),
        ({
            let value = options[i].value@;
            let before = steps[i];
            let after = steps[i + 1];
            &&& after.apps == before.apps
            &&& after.config.http_host == before.config.http_host
            &&& after.config.metrics_host == before.config.metrics_host
            &&& after.config.metrics_port == before.config.metrics_port
            &&& after.config.http_port == if options[i].path@ == "port"@ && value is Integer && 0
                <= value->Integer_0 <= u64::MAX {
                (value->Integer_0 as u64) as u16
            } else {
                before.config.http_port
            }
            &&& after.config.debug == if options[i].path@ == "debug"@ && value is Bool {
                value->Bool_0
            } else {
                before.config.debug
            }
        }),
        r is Ok ==> steps.len() == options.len() + 1,
{
    let name = options[i].path@;
    lemma_one_piece(name, '.');
    options_set_what_they_name(steps[i].config, name, name, options[i].given(), options[i].address);
    reveal_strlit("app_manager.array.apps.");
    reveal_strlit("port");
    reveal_strlit("debug");
    assert("app_manager.array.apps."@.len() == 23);
    assert("port"@.len() == 4);
    assert("debug"@.len() == 5);
}

/// Every server has an application with this id, key and secret at its start, which is enabled and
/// whose clients may send events.
pub proof fn demo_application_is_what_it_is()
    ensures
        demo_app().id == "demo-app"@,
        demo_app().key == "demo-key"@,
        demo_app().secret == "demo-secret"@,
        demo_app().enabled,
        demo_app().enable_client_messages,
        demo_app().webhooks is None,
        demo_app().max_channel_name_length is None,
{
}

/// An option whose path goes on from the list of applications with a position and a field changes
/// that field of one application, and registers it under its id; a position beyond the last, and a path
/// that goes on otherwise, change nothing. One that ends at the list registers the applications that it
/// lists.
pub proof fn option_reaches_an_application(
    before: Map<Seq<char>, AppView>,
    path: Seq<char>,
    index: nat,
    field: Seq<char>,
    value: ValueView,
    after: Map<Seq<char>, AppView>,
)
    requires
        before.dom().finite(),
        index <= usize::MAX,
        apps_after(before, path, value, after),
    ensures
        pieces(path, '.') == seq!["app_manager"@, "array"@, "apps"@, decimal(index), field] ==> {
            &&& index >= before.dom().len() ==> after == before
            &&& index < before.dom().len() ==> exists|id: Seq<char>| #[trigger]
                before.contains_key(id) && after == before.insert(
                    before[id].with_field(field, value).id,
                    before[id].with_field(field, value),
                )
        },
        pieces(path, '.') == seq!["app_manager"@, "array"@, "apps"@] ==> after == match value {
            ValueView::Apps(list) => registered(before, valid_apps(list)),
            _ => before,
        },
        pieces(path, '.')[0] != "app_manager"@ ==> after == before,
{
    let parts = pieces(path, '.');
    crate::text::written_number_is_read(index);
    if parts == seq!["app_manager"@, "array"@, "apps"@, decimal(index), field] {
        let rest = parts.skip(3);
        assert(rest =~= seq![decimal(index), field]);
        assert(position(rest[0]) == Some(index as int));
        let list = choose|list: Seq<AppView>| #[trigger]
            lists_all(before, list) && after == if index < list.len() {
                let app = list[index as int].with_field(field, value);
                before.insert(app.id, app)
            } else {
                before
            };
        let order = choose|order: Seq<Seq<char>>| #[trigger]
            crate::table::named_order(order, before.dom()) && list == order.map_values(
                |id: Seq<char>| before[id],
            );
        order.unique_seq_to_set();
        if index < before.dom().len() {
            let id = order[index as int];
            assert(order.to_set().contains(id));
            assert(before.contains_key(id));
        }
    }
    if parts == seq!["app_manager"@, "array"@, "apps"@] {
        assert(parts.skip(3) =~= Seq::<Seq<char>>::empty());
    }
}

} // verus!
