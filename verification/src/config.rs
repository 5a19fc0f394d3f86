//! The configuration: which stores are used and where the applications
//! keep their project files.

use vstd::prelude::*;
use vstd::string::StringExecFns;

verus! {

/// One configured store: where it is and of which type.
#[derive(Debug)]
pub struct StoreConfig {
    pub path: String,
    pub store_type: String,
}

impl View for StoreConfig {
    type V = (Seq<char>, Seq<char>);

    open spec fn view(&self) -> (Seq<char>, Seq<char>) {
        (self.path@, self.store_type@)
    }
}

impl Clone for StoreConfig {
    fn clone(&self) -> (res: Self)
        ensures
            res@ == self@,
    {
        StoreConfig { path: self.path.clone(), store_type: self.store_type.clone() }
    }
}

/// The text of a string as `{:?}` prints it: in double quotes, with the
/// characters escaped that Rust escapes in a string literal.
pub uninterp spec fn debug_quoted(s: Seq<char>) -> Seq<char>;

/// `Debug` of `str`: the quoted and escaped text of `s`.
#[verifier::external_body]
fn quote(s: &str) -> (res: String)
    ensures
        res@ == debug_quoted(s@),
{
    format!("{s:?}")
}

/// How a store is shown to the user: its quoted path and, in brackets, its
/// type.
pub open spec fn store_label(c: (Seq<char>, Seq<char>)) -> Seq<char> {
    debug_quoted(c.0) + " ("@ + c.1 + ")"@
}

impl StoreConfig {
    /// The text shown to the user for this store.
    pub fn label(&self) -> (s: String)
        ensures
            s@ == store_label(self@),
    {
        quote(self.path.as_str()).concat(" (").concat(self.store_type.as_str()).concat(")")
    }
}

/// `toml::Value`: a value of a TOML document.
#[verifier::external_type_specification]
#[verifier::external_body]
pub struct ExTomlValue(toml::Value);

/// `toml::map::Map`: a table of a TOML document.
#[verifier::external_type_specification]
#[verifier::external_body]
#[verifier::reject_recursive_types(K)]
#[verifier::reject_recursive_types(V)]
pub struct ExTomlMap<K, V>(toml::map::Map<K, V>);

/// A value of a configuration document.
#[derive(Debug)]
pub enum Item {
    Text(String),
    Integer(i64),
    Boolean(bool),
    List(Vec<Item>),
    Table(Vec<(String, Item)>),
    /// A value of a kind that the configuration does not use.
    Other,
}

/// The mathematical value of an item.
pub enum ItemModel {
    Text(Seq<char>),
    Integer(i64),
    Boolean(bool),
    List(Seq<ItemModel>),
    Table(Seq<(Seq<char>, ItemModel)>),
    Other,
}

/// The mathematical value of a table: its keys and values, in order.
pub type TableModel = Seq<(Seq<char>, ItemModel)>;

impl Item {
    pub open spec fn model(&self) -> ItemModel
        decreases self,
    {
        match self {
            Item::Text(s) => ItemModel::Text(s@),
            Item::Integer(i) => ItemModel::Integer(*i),
            Item::Boolean(b) => ItemModel::Boolean(*b),
            Item::List(items) => ItemModel::List(
                Seq::new(
                    items.len() as nat,
                    |i: int|
                        if 0 <= i < items.len() {
                            items[i].model()
                        } else {
                            ItemModel::Other
                        },
                ),
            ),
            Item::Table(entries) => ItemModel::Table(
                Seq::new(
                    entries.len() as nat,
                    |i: int|
                        if 0 <= i < entries.len() {
                            (entries[i].0@, entries[i].1.model())
                        } else {
                            (Seq::empty(), ItemModel::Other)
                        },
                ),
            ),
            Item::Other => ItemModel::Other,
        }
    }
}

/// The value of a list of table entries.
pub open spec fn table_model(entries: Seq<(String, Item)>) -> TableModel {
    Seq::new(entries.len(), |i: int| (entries[i].0@, entries[i].1.model()))
}

/// The value of a list of items.
pub open spec fn list_model(items: Seq<Item>) -> Seq<ItemModel> {
    Seq::new(items.len(), |i: int| items[i].model())
}

/// The table that `toml::from_str` reads from a text; nothing where the
/// text is no TOML document.
pub uninterp spec fn toml_document(contents: Seq<char>) -> Option<TableModel>;

/// The text that `toml::to_string_pretty` writes for a table; nothing where
/// the table cannot be written.
pub uninterp spec fn toml_text(table: TableModel) -> Option<Seq<char>>;

/// Turns a `toml::Value` into an item, variant for variant and with
/// everything inside it; floats and dates become `Other`.
#[verifier::external_body]
fn item_of(value: toml::Value) -> (item: Item) {
    match value {
        toml::Value::String(s) => Item::Text(s),
        toml::Value::Integer(i) => Item::Integer(i),
        toml::Value::Boolean(b) => Item::Boolean(b),
        toml::Value::Array(a) => Item::List(a.into_iter().map(item_of).collect()),
        toml::Value::Table(t) => Item::Table(t.into_iter().map(|(k, v)| (k, item_of(v))).collect()),
        toml::Value::Float(_) | toml::Value::Datetime(_) => Item::Other,
    }
}

/// Turns an item into a `toml::Value`, variant for variant and with
/// everything inside it; there is none for `Other`.
#[verifier::external_body]
fn value_of(item: &Item) -> (value: Option<toml::Value>) {
    Some(match item {
        Item::Text(s) => toml::Value::String(s.clone()),
        Item::Integer(i) => toml::Value::Integer(*i),
        Item::Boolean(b) => toml::Value::Boolean(*b),
        Item::List(a) => toml::Value::Array(a.iter().map(value_of).collect::<Option<_>>()?),
        Item::Table(t) => toml::Value::Table(
            t.iter().map(|(k, v)| Some((k.clone(), value_of(v)?))).collect::<Option<_>>()?,
        ),
        Item::Other => return None,
    })
}

/// `toml::from_str`: reads a text as a TOML document. It succeeds exactly
/// on the texts that are documents, and gives the document's table; an
/// error comes back as its text.
#[verifier::external_body]
fn parse_document(contents: &str) -> (res: Result<Vec<(String, Item)>, String>)
    ensures
        res is Ok <==> toml_document(contents@) is Some,
        res is Ok ==> table_model(res->Ok_0@) == toml_document(contents@)->Some_0,
{
    match toml::from_str::<toml::Table>(contents) {
        Ok(table) => Ok(table.into_iter().map(|(k, v)| (k, item_of(v))).collect()),
        Err(e) => Err(e.to_string()),
    }
}

/// `toml::to_string_pretty`: writes a table as a TOML document. Nothing
/// comes back where the table holds a value that TOML has no kind for; an
/// error comes back as its text. The text comes back exactly on the tables
/// that can be written, and is the document's text.
#[verifier::external_body]
fn render_document(table: &Vec<(String, Item)>) -> (res: Option<Result<String, String>>)
    ensures
        res is Some && res->Some_0 is Ok <==> toml_text(table_model(table@)) is Some,
        res is Some && res->Some_0 is Ok ==> res->Some_0->Ok_0@ == toml_text(
            table_model(table@),
        )->Some_0,
{
    let entries = table.iter().map(|(k, v)| Some((k.clone(), value_of(v)?)));
    let t = entries.collect::<Option<toml::Table>>()?;
    Some(toml::to_string_pretty(&t).map_err(|e| e.to_string()))
}

/// The whole configuration.
#[derive(Debug)]
pub struct Config {
    /// The stores that projects are committed to.
    pub stores: Vec<StoreConfig>,
    /// Where Mindstorms keeps its projects, if not in the default place.
    pub mindstorms_path: Option<String>,
    /// Where Spike keeps its projects, if not in the default place.
    pub spike_path: Option<String>,
    /// The file that the configuration was read from.
    pub config_path: Option<String>,
}

/// The value of a configuration.
pub struct ConfigModel {
    pub stores: Seq<(Seq<char>, Seq<char>)>,
    pub mindstorms_path: Option<Seq<char>>,
    pub spike_path: Option<Seq<char>>,
    pub config_path: Option<Seq<char>>,
}

/// The value of an optional text.
pub open spec fn text_model(t: Option<String>) -> Option<Seq<char>> {
    match t {
        Some(s) => Some(s@),
        None => None,
    }
}

impl View for Config {
    type V = ConfigModel;

    open spec fn view(&self) -> ConfigModel {
        ConfigModel {
            stores: self.stores@.map_values(|c: StoreConfig| c@),
            mindstorms_path: text_model(self.mindstorms_path),
            spike_path: text_model(self.spike_path),
            config_path: text_model(self.config_path),
        }
    }
}

impl Default for Config {
    fn default() -> (res: Self)
        ensures
            res.stores@.len() == 0,
            res.mindstorms_path is None,
            res.spike_path is None,
            res.config_path is None,
    {
        Config { stores: Vec::new(), mindstorms_path: None, spike_path: None, config_path: None }
    }
}

/// Why a configuration could not be read or written.
#[derive(Debug)]
pub enum ConfigError {
    /// The text is no TOML document, or the document cannot be written.
    Syntax(String),
    /// The field of this name is missing or of the wrong kind.
    InvalidField(String),
}

impl ConfigError {
    /// The text shown to the user.
    pub fn message(&self) -> (s: String)
        ensures
            self is Syntax ==> s@ == self->Syntax_0@,
            self is InvalidField ==> s@ == "invalid or missing field: "@ + self->InvalidField_0@,
    {
        match self {
            ConfigError::Syntax(m) => m.clone(),
            ConfigError::InvalidField(k) => String::from_str("invalid or missing field: ").concat(
                k.as_str(),
            ),
        }
    }
}

/// The value under `key` among the first `n` entries of a table: that of
/// the first entry with the key.
pub open spec fn field_in(table: TableModel, key: Seq<char>, n: nat) -> Option<ItemModel>
    decreases n,
{
    if n == 0 || n > table.len() {
        None
    } else {
        match field_in(table, key, (n - 1) as nat) {
            Some(v) => Some(v),
            None => if table[n - 1].0 == key {
                Some(table[n - 1].1)
            } else {
                None
            },
        }
    }
}

/// The value under `key` in a table.
pub open spec fn field(table: TableModel, key: Seq<char>) -> Option<ItemModel> {
    field_in(table, key, table.len())
}

/// A text that a table may hold under `key`: nothing where the key is not
/// there. A value that is no text is an error, the outer `None`.
pub open spec fn optional_text(table: TableModel, key: Seq<char>) -> Option<Option<Seq<char>>> {
    match field(table, key) {
        None => Some(None),
        Some(ItemModel::Text(s)) => Some(Some(s)),
        Some(_) => None,
    }
}

/// The store that an item describes: a table with the texts `path` and
/// `type`. Other keys do not matter.
pub open spec fn store_model(item: ItemModel) -> Option<(Seq<char>, Seq<char>)> {
    match item {
        ItemModel::Table(t) => match (field(t, "path"@), field(t, "type"@)) {
            (Some(ItemModel::Text(p)), Some(ItemModel::Text(ty))) => Some((p, ty)),
            _ => None,
        },
        _ => None,
    }
}

/// The stores that the first `n` items describe; nothing where one of them
/// is no store.
pub open spec fn stores_model(items: Seq<ItemModel>, n: nat) -> Option<Seq<(Seq<char>, Seq<char>)>>
    decreases n,
{
    if n == 0 || n > items.len() {
        Some(Seq::empty())
    } else {
        match (stores_model(items, (n - 1) as nat), store_model(items[n - 1])) {
            (Some(rest), Some(st)) => Some(rest.push(st)),
            _ => None,
        }
    }
}

/// The stores of a document: those of the list under `stores`, none where
/// the key is not there.
pub open spec fn stores_field(table: TableModel) -> Option<Seq<(Seq<char>, Seq<char>)>> {
    match field(table, "stores"@) {
        None => Some(Seq::empty()),
        Some(ItemModel::List(items)) => stores_model(items, items.len()),
        Some(_) => None,
    }
}

/// The configuration that a document describes. Keys that the configuration
/// does not know are passed over.
pub open spec fn config_model(table: TableModel) -> Option<ConfigModel> {
    match (
        stores_field(table),
        optional_text(table, "mindstorms_path"@),
        optional_text(table, "spike_path"@),
    ) {
        (Some(stores), Some(mindstorms_path), Some(spike_path)) => Some(
            ConfigModel { stores, mindstorms_path, spike_path, config_path: None },
        ),
        _ => None,
    }
}

/// The item that describes a store: a table with its path and its type.
pub open spec fn store_item(st: (Seq<char>, Seq<char>)) -> ItemModel {
    ItemModel::Table(seq![("path"@, ItemModel::Text(st.0)), ("type"@, ItemModel::Text(st.1))])
}

/// The entry of a path that a configuration may name: none where it names
/// none.
pub open spec fn path_entry(key: Seq<char>, path: Option<Seq<char>>) -> TableModel {
    match path {
        Some(p) => seq![(key, ItemModel::Text(p))],
        None => Seq::empty(),
    }
}

/// The document that describes a configuration: the list of its stores,
/// then each path that it names. The file it was read from is no part of
/// it.
pub open spec fn config_document(c: ConfigModel) -> TableModel {
    seq![("stores"@, ItemModel::List(c.stores.map_values(|st: (Seq<char>, Seq<char>)| store_item(st))))]
        + path_entry("mindstorms_path"@, c.mindstorms_path) + path_entry(
        "spike_path"@,
        c.spike_path,
    )
}

/// A value that was found among the first entries is the value of the
/// table.
proof fn lemma_field_found(table: TableModel, key: Seq<char>, i: nat, n: nat)
    requires
        i <= n <= table.len(),
        field_in(table, key, i) is Some,
    ensures
        field_in(table, key, n) == field_in(table, key, i),
    decreases n,
{
    if i < n {
        lemma_field_found(table, key, i, (n - 1) as nat);
    }
}

/// Once an item is no store, the list holds no stores.
proof fn lemma_stores_fail(items: Seq<ItemModel>, i: nat, n: nat)
    requires
        i <= n <= items.len(),
        stores_model(items, i) is None,
    ensures
        stores_model(items, n) is None,
    decreases n,
{
    if i < n {
        lemma_stores_fail(items, i, (n - 1) as nat);
    }
}

/// The value under `key` in a table.
pub fn get_field<'a>(table: &'a Vec<(String, Item)>, key: &str) -> (res: Option<&'a Item>)
    ensures
        res is Some == field(table_model(table@), key@) is Some,
        res is Some ==> res->Some_0.model() == field(table_model(table@), key@)->Some_0,
{
    let ghost t = table_model(table@);
    let mut i: usize = 0;
    while i < table.len()
        invariant
            i <= table.len(),
            t == table_model(table@),
            field_in(t, key@, i as nat) is None,
        decreases table.len() - i,
    {
        if table[i].0 == String::from_str(key) {
            proof {
                assert(t[i as int] == (table@[i as int].0@, table@[i as int].1.model()));
                assert(field_in(t, key@, (i + 1) as nat) == Some(table@[i as int].1.model()));
                lemma_field_found(t, key@, (i + 1) as nat, t.len());
            }
            return Some(&table[i].1);
        }
        i += 1;
    }
    None
}

/// The text that a table may hold under `key`.
pub fn get_optional_text(table: &Vec<(String, Item)>, key: &str) -> (res: Result<
    Option<String>,
    ConfigError,
>)
    ensures
        res is Ok <==> optional_text(table_model(table@), key@) is Some,
        res is Ok ==> text_model(res->Ok_0) == optional_text(table_model(table@), key@)->Some_0,
        res is Err ==> res->Err_0 is InvalidField && res->Err_0->InvalidField_0@ == key@,
{
    match get_field(table, key) {
        None => Ok(None),
        Some(Item::Text(s)) => Ok(Some(s.clone())),
        Some(_) => Err(ConfigError::InvalidField(String::from_str(key))),
    }
}

/// The store that an item describes.
pub fn get_store(item: &Item) -> (res: Option<StoreConfig>)
    ensures
        res is Some == store_model(item.model()) is Some,
        res is Some ==> res->Some_0@ == store_model(item.model())->Some_0,
{
    match item {
        Item::Table(t) => {
            assert(item.model() == ItemModel::Table(table_model(t@))) by {
                assert(item.model()->Table_0 =~= table_model(t@));
            }
            match (get_field(t, "path"), get_field(t, "type")) {
                (Some(Item::Text(p)), Some(Item::Text(ty))) => Some(
                    StoreConfig { path: p.clone(), store_type: ty.clone() },
                ),
                _ => None,
            }
        },
        _ => None,
    }
}

/// The stores of a document.
pub fn get_stores(table: &Vec<(String, Item)>) -> (res: Result<Vec<StoreConfig>, ConfigError>)
    ensures
        res is Ok <==> stores_field(table_model(table@)) is Some,
        res is Ok ==> configs_view(res->Ok_0@) == stores_field(table_model(table@))->Some_0,
        res is Err ==> res->Err_0 is InvalidField && res->Err_0->InvalidField_0@ == "stores"@,
{
    let mut stores: Vec<StoreConfig> = Vec::new();
    match get_field(table, "stores") {
        None => {
            assert(configs_view(stores@) =~= Seq::empty());
            Ok(stores)
        },
        Some(Item::List(items)) => {
            let ghost all = list_model(items@);
            assert(Item::List(*items).model()->List_0 =~= all);
            let mut i: usize = 0;
            assert(configs_view(stores@) =~= Seq::empty());
            assert(stores_field(table_model(table@)) == stores_model(all, all.len()));
            while i < items.len()
                invariant
                    i <= items.len(),
                    all == list_model(items@),
                    stores_field(table_model(table@)) == stores_model(all, all.len()),
                    stores_model(all, i as nat) == Some(configs_view(stores@)),
                decreases items.len() - i,
            {
                let ghost before = configs_view(stores@);
                match get_store(&items[i]) {
                    Some(st) => {
                        stores.push(st);
                        assert(configs_view(stores@) =~= before.push(st@));
                    },
                    None => {
                        proof {
                            assert(stores_model(all, (i + 1) as nat) is None);
                            lemma_stores_fail(all, (i + 1) as nat, all.len());
                        }
                        return Err(ConfigError::InvalidField(String::from_str("stores")));
                    },
                }
                i += 1;
            }
            Ok(stores)
        },
        Some(_) => Err(ConfigError::InvalidField(String::from_str("stores"))),
    }
}

/// The values of a list of store configurations.
pub open spec fn configs_view(stores: Seq<StoreConfig>) -> Seq<(Seq<char>, Seq<char>)> {
    stores.map_values(|c: StoreConfig| c@)
}

impl Config {
    /// The configuration that a document describes.
    pub fn from_document(table: &Vec<(String, Item)>) -> (res: Result<Config, ConfigError>)
        ensures
            res is Ok <==> config_model(table_model(table@)) is Some,
            res is Ok ==> res->Ok_0@ == config_model(table_model(table@))->Some_0,
    {
        let stores = get_stores(table)?;
        let mindstorms_path = get_optional_text(table, "mindstorms_path")?;
        let spike_path = get_optional_text(table, "spike_path")?;
        Ok(Config { stores, mindstorms_path, spike_path, config_path: None })
    }

    /// The configuration that a TOML text describes.
    pub fn load_from_string(contents: &str) -> (res: Result<Config, ConfigError>)
        ensures
            res is Ok <==> toml_document(contents@) is Some && config_model(
                toml_document(contents@)->Some_0,
            ) is Some,
            res is Ok ==> res->Ok_0@ == config_model(toml_document(contents@)->Some_0)->Some_0,
            toml_document(contents@) is None ==> res is Err && res->Err_0 is Syntax,
    {
        match parse_document(contents) {
            Ok(table) => Self::from_document(&table),
            Err(e) => Err(ConfigError::Syntax(e)),
        }
    }

    /// The configuration of the file at `path`, from the file's text. Where
    /// the file is not there (no text), the configuration is the default
    /// one; else it is the one that the text describes, and it knows its
    /// file.
    pub fn load(path: String, contents: Option<&str>) -> (res: Result<Config, ConfigError>)
        ensures
            contents is None ==> res is Ok && res->Ok_0@ == (ConfigModel {
                stores: Seq::empty(),
                mindstorms_path: None,
                spike_path: None,
                config_path: None,
            }),
            contents is Some ==> {
                let doc = toml_document(contents->Some_0@);
                &&& res is Ok <==> doc is Some && config_model(doc->Some_0) is Some
                &&& res is Ok ==> res->Ok_0@ == (ConfigModel {
                    config_path: Some(path@),
                    ..config_model(doc->Some_0)->Some_0
                })
            },
    {
        match contents {
            None => {
                let cfg = Config::default();
                assert(cfg@.stores =~= Seq::empty());
                Ok(cfg)
            },
            Some(text) => {
                let mut cfg = Self::load_from_string(text)?;
                cfg.config_path = Some(path);
                Ok(cfg)
            },
        }
    }

    /// The document that describes this configuration: its stores, and
    /// each path that it names.
    pub fn to_document(&self) -> (table: Vec<(String, Item)>)
        ensures
            table_model(table@) == config_document(self@),
            config_model(table_model(table@)) == Some(
                ConfigModel { config_path: None, ..self@ },
            ),
    {
        let mut list: Vec<Item> = Vec::new();
        let mut i: usize = 0;
        assert(configs_view(self.stores@.take(0)) =~= Seq::empty());
        assert(list_model(list@) =~= configs_view(self.stores@.take(0)).map_values(
            |st: (Seq<char>, Seq<char>)| store_item(st),
        ));
        while i < self.stores.len()
            invariant
                i <= self.stores.len(),
                list@.len() == i,
                list_model(list@) == configs_view(self.stores@.take(i as int)).map_values(
                    |st: (Seq<char>, Seq<char>)| store_item(st),
                ),
                stores_model(list_model(list@), i as nat) == Some(
                    configs_view(self.stores@.take(i as int)),
                ),
            decreases self.stores.len() - i,
        {
            let st = &self.stores[i];
            let mut entry: Vec<(String, Item)> = Vec::new();
            entry.push((String::from_str("path"), Item::Text(st.path.clone())));
            entry.push((String::from_str("type"), Item::Text(st.store_type.clone())));
            let item = Item::Table(entry);
            proof {
                reveal_strlit("path");
                reveal_strlit("type");
                let t = table_model(entry@);
                assert(item.model()->Table_0 =~= t);
                assert(t[0] == ("path"@, ItemModel::Text(st.path@)));
                assert(t[1] == ("type"@, ItemModel::Text(st.store_type@)));
                assert("path"@ != "type"@) by {
                    assert("path"@[0] == 'p');
                    assert("type"@[0] == 't');
                }
                assert(field_in(t, "path"@, 0) is None);
                assert(field_in(t, "type"@, 0) is None);
                assert(field_in(t, "path"@, 1) == Some(ItemModel::Text(st.path@)));
                assert(field_in(t, "path"@, 2) == Some(ItemModel::Text(st.path@)));
                assert(field_in(t, "type"@, 1) is None);
                assert(field_in(t, "type"@, 2) == Some(ItemModel::Text(st.store_type@)));
                assert(store_model(item.model()) == Some(st@));
                assert(t =~= seq![
                    ("path"@, ItemModel::Text(st.path@)),
                    ("type"@, ItemModel::Text(st.store_type@)),
                ]);
                assert(item.model() == store_item(st@));
            }
            let ghost before = list_model(list@);
            list.push(item);
            proof {
                let now = list_model(list@);
                assert(now.len() == i + 1);
                assert(now[i as int] == item.model());
                lemma_stores_same(before, now, i as nat);
                assert(configs_view(self.stores@.take(i + 1)) =~= configs_view(
                    self.stores@.take(i as int),
                ).push(st@));
                assert(now =~= configs_view(self.stores@.take(i + 1)).map_values(
                    |st: (Seq<char>, Seq<char>)| store_item(st),
                )) by {
                    assert forall|j: int| 0 <= j < i implies now[j] == before[j] by {}
                }
            }
            i += 1;
        }
        assert(self.stores@.take(i as int) =~= self.stores@);
        let ghost stores_item = Item::List(list).model();
        assert(stores_item->List_0 =~= list_model(list@));
        let mut table: Vec<(String, Item)> = Vec::new();
        table.push((String::from_str("stores"), Item::List(list)));
        match &self.mindstorms_path {
            Some(p) => table.push((String::from_str("mindstorms_path"), Item::Text(p.clone()))),
            None => {},
        }
        match &self.spike_path {
            Some(p) => table.push((String::from_str("spike_path"), Item::Text(p.clone()))),
            None => {},
        }
        proof {
            reveal_strlit("stores");
            reveal_strlit("mindstorms_path");
            reveal_strlit("spike_path");
            let t = table_model(table@);
            let s = "stores"@;
            let m = "mindstorms_path"@;
            let k = "spike_path"@;
            assert(s != m && s != k && m != k) by {
                assert(s.len() == 6 && m.len() == 15 && k.len() == 10);
            }
            assert(t[0] == (s, stores_item));
            assert(field_in(t, s, 0) is None);
            assert(field_in(t, m, 0) is None);
            assert(field_in(t, k, 0) is None);
            assert(field_in(t, s, 1) == Some(stores_item));
            lemma_field_found(t, s, 1, t.len());
            assert(field_in(t, m, 1) is None);
            assert(field_in(t, k, 1) is None);
            if self.mindstorms_path is Some {
                assert(t[1] == (m, ItemModel::Text(self.mindstorms_path->Some_0@)));
                assert(field_in(t, m, 2) == Some(ItemModel::Text(self.mindstorms_path->Some_0@)));
                lemma_field_found(t, m, 2, t.len());
                assert(field_in(t, k, 2) is None);
                if self.spike_path is Some {
                    assert(t[2] == (k, ItemModel::Text(self.spike_path->Some_0@)));
                    assert(field_in(t, k, 3) == Some(ItemModel::Text(self.spike_path->Some_0@)));
                }
            } else {
                if self.spike_path is Some {
                    assert(t[1] == (k, ItemModel::Text(self.spike_path->Some_0@)));
                    assert(field_in(t, k, 2) == Some(ItemModel::Text(self.spike_path->Some_0@)));
                    assert(field_in(t, m, 2) is None);
                }
            }
            assert(stores_field(t) == Some(self@.stores));
            assert(optional_text(t, m) == Some(self@.mindstorms_path));
            assert(optional_text(t, k) == Some(self@.spike_path));
            assert(self@.stores =~= configs_view(self.stores@));
            assert(stores_item == ItemModel::List(
                self@.stores.map_values(|st: (Seq<char>, Seq<char>)| store_item(st)),
            ));
            assert(t =~= config_document(self@));
        }
        table
    }

    /// The TOML text that describes this configuration, to be written to
    /// its file.
    pub fn store(&self) -> (res: Result<String, ConfigError>)
        ensures
            res is Ok <==> toml_text(config_document(self@)) is Some,
            res is Ok ==> res->Ok_0@ == toml_text(config_document(self@))->Some_0,
            res is Err ==> res->Err_0 is Syntax,
    {
        let table = self.to_document();
        match render_document(&table) {
            Some(Ok(text)) => Ok(text),
            Some(Err(e)) => Err(ConfigError::Syntax(e)),
            None => Err(ConfigError::Syntax(String::from_str("unsupported value"))),
        }
    }
}

/// Items that are the same up to `n` describe the same stores up to `n`.
proof fn lemma_stores_same(a: Seq<ItemModel>, b: Seq<ItemModel>, n: nat)
    requires
        n <= a.len(),
        n <= b.len(),
        forall|i: int| 0 <= i < n ==> a[i] == b[i],
    ensures
        stores_model(a, n) == stores_model(b, n),
    decreases n,
{
    if n > 0 {
        lemma_stores_same(a, b, (n - 1) as nat);
    }
}

/// The name of the configuration file inside the configuration directory.
pub open spec fn config_file_name() -> Seq<char> {
    "mind-meld.toml"@
}

/// The default place of the configuration file: inside the user's
/// configuration directory, if there is one.
pub fn config_path(config_dir: Option<String>) -> (res: Option<String>)
    ensures
        config_dir is None ==> res is None,
        config_dir is Some ==> res is Some && res->Some_0@ == config_dir->Some_0@ + "/"@
            + config_file_name(),
{
    match config_dir {
        None => None,
        Some(dir) => Some(dir.concat("/").concat("mind-meld.toml")),
    }
}

/// The configuration file to use: the one asked for, else the default one.
/// Fails where neither is there.
pub fn get_config_path(path: Option<&str>, config_dir: Option<String>) -> (res: Result<
    String,
    &'static str,
>)
    ensures
        path is Some ==> res is Ok && res->Ok_0@ == path->Some_0@,
        path is None && config_dir is Some ==> res is Ok && res->Ok_0@ == config_dir->Some_0@
            + "/"@ + config_file_name(),
        path is None && config_dir is None ==> res is Err && res->Err_0@
            == "No config dir found"@,
{
    match path {
        Some(p) => Ok(String::from_str(p)),
        None => match config_path(config_dir) {
            Some(p) => Ok(p),
            None => Err("No config dir found"),
        },
    }
}

} // verus!
