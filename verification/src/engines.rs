//! Which engine runs a review, and how it is invoked.
//!
//! A configured invocation replaces the shipped one, because the flags of a command line drift.
//! What it never does is replace it silently with something unusable: a malformed table is an
//! error that names the key. Falling back to a default that works would leave somebody's
//! deliberate override doing nothing.

use vstd::prelude::*;

use crate::model::EngineKind;
use crate::text::{
    blank, cat3, first_index, first_index_is, first_index_means, first_index_none, is_blank, same,
    stands_inside, texts, within,
};

verus! {

/// Why an engine could not be built.
#[derive(Clone, Debug, PartialEq, Eq)]
pub enum EngineError {
    /// A table has a key of the wrong shape.
    BadKey {
        /// Which engine's table.
        engine: String,
        /// Which key.
        key: String,
        /// What was there.
        found: String,
        /// What it should be.
        wanted: String,
    },
    /// The configured invocation names no binary.
    NoBinary {
        /// Which engine's table.
        engine: String,
    },
}

/// Why an engine could not be built.
pub enum EngineFault {
    /// A key of the wrong shape.
    BadKey { engine: Seq<char>, key: Seq<char>, found: Seq<char>, wanted: Seq<char> },
    /// No binary.
    NoBinary { engine: Seq<char> },
}

impl View for EngineError {
    type V = EngineFault;

    open spec fn view(&self) -> EngineFault {
        match *self {
            Self::BadKey { engine, key, found, wanted } => EngineFault::BadKey {
                engine: engine@,
                key: key@,
                found: found@,
                wanted: wanted@,
            },
            Self::NoBinary { engine } => EngineFault::NoBinary { engine: engine@ },
        }
    }
}

/// A fault in words.
pub open spec fn fault_in_words(fault: EngineFault) -> Seq<char> {
    match fault {
        EngineFault::BadKey { engine, key, found, wanted } => "[engines."@ + engine + "] has `"@ + key
            + "` as "@ + found + ", which should be "@ + wanted
            + "\n  try: fix it in your config, or delete the key to use the default"@,
        EngineFault::NoBinary { engine } => "[engines."@ + engine
            + "] sets `bin` to an empty string, so there is nothing to run\n  try: set bin, or delete the key to use §8.4's default"@,
    }
}

impl EngineError {
    /// The error in words.
    pub fn describe(&self) -> (r: String)
        ensures
            r@ == fault_in_words(self@),
    {
        match self {
            Self::BadKey { engine, key, found, wanted } => {
                let mut out = crate::text::cat7(
                    "[engines.",
                    engine.as_str(),
                    "] has `",
                    key.as_str(),
                    "` as ",
                    found.as_str(),
                    ", which should be ",
                );
                out.append(wanted.as_str());
                out.append("\n  try: fix it in your config, or delete the key to use the default");
                out
            },
            Self::NoBinary { engine } => cat3(
                "[engines.",
                engine.as_str(),
                "] sets `bin` to an empty string, so there is nothing to run\n  try: set bin, or delete the key to use §8.4's default",
            ),
        }
    }
}

/// How an engine is invoked.
#[derive(Clone, Debug, PartialEq, Eq)]
pub struct InvocationTemplate {
    /// The program.
    pub bin: String,
    /// Its arguments.
    pub args: Vec<String>,
    /// The arguments that ask for its version.
    pub version_args: Vec<String>,
    /// Whether the prompt goes to its standard input.
    pub stdin_prompt: bool,
    /// The variables of the environment that it is given.
    pub pass_env: Vec<String>,
}

/// How an engine is invoked, as values.
pub struct Invocation {
    /// The program.
    pub bin: Seq<char>,
    /// Its arguments.
    pub args: Seq<Seq<char>>,
    /// The arguments that ask for its version.
    pub version_args: Seq<Seq<char>>,
    /// Whether the prompt goes to its standard input.
    pub stdin_prompt: bool,
    /// The variables of the environment that it is given.
    pub pass_env: Seq<Seq<char>>,
}

impl View for InvocationTemplate {
    type V = Invocation;

    open spec fn view(&self) -> Invocation {
        Invocation {
            bin: self.bin@,
            args: texts(self.args@),
            version_args: texts(self.version_args@),
            stdin_prompt: self.stdin_prompt,
            pass_env: texts(self.pass_env@),
        }
    }
}

/// An item of a configured list.
#[derive(Clone, Debug, PartialEq, Eq)]
pub enum ConfigItem {
    /// A text.
    Text(String),
    /// Something else, by the name of its type.
    Other(String),
}

/// A configured value.
#[derive(Debug, PartialEq, Eq)]
pub enum ConfigValue {
    /// A text.
    Text(String),
    /// A truth value.
    Flag(bool),
    /// A list.
    List(Vec<ConfigItem>),
    /// Something else, by the name of its type.
    Other(String),
}

impl ConfigValue {
    /// The name of a value's type.
    pub open spec fn type_word(self) -> Seq<char> {
        match self {
            Self::Text(_) => "string"@,
            Self::Flag(_) => "boolean"@,
            Self::List(_) => "array"@,
            Self::Other(kind) => kind@,
        }
    }

    /// The name of a value's type.
    pub fn type_str(&self) -> (r: &str)
        ensures
            r@ == self.type_word(),
    {
        match self {
            Self::Text(_) => "string",
            Self::Flag(_) => "boolean",
            Self::List(_) => "array",
            Self::Other(kind) => kind.as_str(),
        }
    }
}

/// A configured table: keys and their values.
pub type Table = Vec<(String, ConfigValue)>;

/// Whether an entry has a key.
pub open spec fn keyed(key: Seq<char>) -> spec_fn((String, ConfigValue)) -> bool {
    |e: (String, ConfigValue)| e.0@ == key
}

/// The value of a key.
pub open spec fn value_at(table: Seq<(String, ConfigValue)>, key: Seq<char>) -> Option<ConfigValue> {
    match first_index(table, keyed(key)) {
        Some(i) => Some(table[i].1),
        None => None,
    }
}

fn find_key(table: &Table, key: &str) -> (r: Option<usize>)
    ensures
        match r {
            Some(i) => i < table@.len() && value_at(table@, key@) == Some(table@[i as int].1),
            None => value_at(table@, key@) is None,
        },
{
    let ghost p = keyed(key@);
    let mut i: usize = 0;
    while i < table.len()
        invariant
            i <= table.len(),
            p == keyed(key@),
            forall|j: int| 0 <= j < i ==> !p(#[trigger] table@[j]),
        decreases table.len() - i,
    {
        if same(table[i].0.as_str(), key) {
            proof {
                first_index_is(table@, p, i as int);
            }
            return Some(i);
        }
        i += 1;
    }
    proof {
        first_index_none(table@, p);
    }
    None
}

/// What is configured for engines: names, each with its table, or with nothing where what stands
/// there is no table.
pub type Tables = Vec<(String, Option<Table>)>;

/// Whether an entry has a name.
pub open spec fn entry_named(name: Seq<char>) -> spec_fn((String, Option<Table>)) -> bool {
    |e: (String, Option<Table>)| e.0@ == name
}

/// The table of one engine: that of the first entry under its name.
pub open spec fn table_at(tables: Seq<(String, Option<Table>)>, name: Seq<char>) -> Option<
    Seq<(String, ConfigValue)>,
> {
    match first_index(tables, entry_named(name)) {
        Some(i) => match tables[i].1 {
            Some(table) => Some(table@),
            None => None,
        },
        None => None,
    }
}

fn find_table<'a>(tables: &'a Tables, name: &str) -> (r: Option<&'a Table>)
    ensures
        table_at(tables@, name@) == match r {
            Some(table) => Some(table@),
            None => None,
        },
{
    let ghost p = entry_named(name@);
    let mut i: usize = 0;
    while i < tables.len()
        invariant
            i <= tables.len(),
            p == entry_named(name@),
            forall|j: int| 0 <= j < i ==> !p(#[trigger] tables@[j]),
        decreases tables.len() - i,
    {
        if same(tables[i].0.as_str(), name) {
            proof {
                first_index_is(tables@, p, i as int);
            }
            return match &tables[i].1 {
                Some(table) => Some(table),
                None => None,
            };
        }
        i += 1;
    }
    proof {
        first_index_none(tables@, p);
    }
    None
}

/// The fault of a key of the wrong shape.
pub open spec fn bad_key(engine: Seq<char>, key: Seq<char>, found: Seq<char>, wanted: Seq<char>) -> EngineFault {
    EngineFault::BadKey { engine, key, found, wanted }
}

fn refuse(engine: &str, key: &str, found: &str, wanted: &str) -> (r: EngineError)
    ensures
        r@ == bad_key(engine@, key@, found@, wanted@),
{
    EngineError::BadKey {
        engine: engine.to_owned(),
        key: key.to_owned(),
        found: found.to_owned(),
        wanted: wanted.to_owned(),
    }
}

/// A key that should hold a text.
pub open spec fn text_at(
    engine: Seq<char>,
    table: Seq<(String, ConfigValue)>,
    key: Seq<char>,
) -> Result<Option<Seq<char>>, EngineFault> {
    match value_at(table, key) {
        None => Ok(None),
        Some(ConfigValue::Text(text)) => Ok(Some(text@)),
        Some(other) => Err(bad_key(engine, key, other.type_word(), "a string"@)),
    }
}

fn string(engine: &str, table: &Table, key: &str) -> (r: Result<Option<String>, EngineError>)
    ensures
        match r {
            Ok(found) => text_at(engine@, table@, key@) == Ok::<_, EngineFault>(crate::text::opt_text(found)),
            Err(e) => text_at(engine@, table@, key@) == Err::<Option<Seq<char>>, _>(e@),
        },
{
    match find_key(table, key) {
        None => Ok(None),
        Some(i) => match &table[i].1 {
            ConfigValue::Text(text) => Ok(Some(text.clone())),
            other => Err(refuse(engine, key, other.type_str(), "a string")),
        },
    }
}

/// A key that should hold a truth value.
pub open spec fn flag_at(
    engine: Seq<char>,
    table: Seq<(String, ConfigValue)>,
    key: Seq<char>,
) -> Result<Option<bool>, EngineFault> {
    match value_at(table, key) {
        None => Ok(None),
        Some(ConfigValue::Flag(value)) => Ok(Some(value)),
        Some(other) => Err(bad_key(engine, key, other.type_word(), "true or false"@)),
    }
}

fn boolean(engine: &str, table: &Table, key: &str) -> (r: Result<Option<bool>, EngineError>)
    ensures
        match r {
            Ok(found) => flag_at(engine@, table@, key@) == Ok::<_, EngineFault>(found),
            Err(e) => flag_at(engine@, table@, key@) == Err::<Option<bool>, _>(e@),
        },
{
    match find_key(table, key) {
        None => Ok(None),
        Some(i) => match &table[i].1 {
            ConfigValue::Flag(value) => Ok(Some(*value)),
            other => Err(refuse(engine, key, other.type_str(), "true or false")),
        },
    }
}

/// The texts of a list, up to the first item that is none.
pub open spec fn item_texts(
    engine: Seq<char>,
    key: Seq<char>,
    items: Seq<ConfigItem>,
) -> Result<Seq<Seq<char>>, EngineFault>
    decreases items.len(),
{
    if items.len() == 0 {
        Ok(Seq::empty())
    } else {
        match item_texts(engine, key, items.drop_last()) {
            Err(e) => Err(e),
            Ok(before) => match items.last() {
                ConfigItem::Text(text) => Ok(before.push(text@)),
                ConfigItem::Other(kind) => Err(bad_key(engine, key, kind@, "an array of strings"@)),
            },
        }
    }
}

proof fn a_bad_item_stays_bad(engine: Seq<char>, key: Seq<char>, items: Seq<ConfigItem>, n: int)
    requires
        0 <= n <= items.len(),
        item_texts(engine, key, items.take(n)) is Err,
    ensures
        item_texts(engine, key, items) == item_texts(engine, key, items.take(n)),
    decreases items.len(),
{
    if n < items.len() {
        assert(items.drop_last().take(n) =~= items.take(n));
        a_bad_item_stays_bad(engine, key, items.drop_last(), n);
    } else {
        assert(items.take(n) =~= items);
    }
}

/// A key that should hold a list of texts.
pub open spec fn texts_at(
    engine: Seq<char>,
    table: Seq<(String, ConfigValue)>,
    key: Seq<char>,
) -> Result<Option<Seq<Seq<char>>>, EngineFault> {
    match value_at(table, key) {
        None => Ok(None),
        Some(ConfigValue::List(items)) => match item_texts(engine, key, items@) {
            Ok(found) => Ok(Some(found)),
            Err(e) => Err(e),
        },
        Some(other) => Err(bad_key(engine, key, other.type_word(), "an array of strings"@)),
    }
}

fn items_as_texts(engine: &str, key: &str, items: &Vec<ConfigItem>) -> (r: Result<Vec<String>, EngineError>)
    ensures
        match r {
            Ok(found) => item_texts(engine@, key@, items@) == Ok::<_, EngineFault>(texts(found@)),
            Err(e) => item_texts(engine@, key@, items@) == Err::<Seq<Seq<char>>, _>(e@),
        },
{
    let mut found: Vec<String> = Vec::new();
    let mut i: usize = 0;
    assert(items@.take(0) =~= Seq::empty());
    assert(texts(found@) =~= Seq::empty());
    while i < items.len()
        invariant
            i <= items.len(),
            item_texts(engine@, key@, items@.take(i as int)) == Ok::<_, EngineFault>(texts(found@)),
        decreases items.len() - i,
    {
        assert(items@.take(i + 1).drop_last() =~= items@.take(i as int));
        match &items[i] {
            ConfigItem::Text(text) => {
                let ghost was = found@;
                found.push(text.clone());
                assert(texts(found@) =~= texts(was).push(text@));
            },
            ConfigItem::Other(kind) => {
                proof {
                    a_bad_item_stays_bad(engine@, key@, items@, i + 1);
                }
                return Err(refuse(engine, key, kind.as_str(), "an array of strings"));
            },
        }
        i += 1;
    }
    assert(items@.take(items@.len() as int) =~= items@);
    Ok(found)
}

fn strings(engine: &str, table: &Table, key: &str) -> (r: Result<Option<Vec<String>>, EngineError>)
    ensures
        match r {
            Ok(found) => texts_at(engine@, table@, key@) == Ok::<_, EngineFault>(
                match found {
                    Some(v) => Some(texts(v@)),
                    None => None,
                },
            ),
            Err(e) => texts_at(engine@, table@, key@) == Err::<Option<Seq<Seq<char>>>, _>(e@),
        },
{
    match find_key(table, key) {
        None => Ok(None),
        Some(i) => match &table[i].1 {
            ConfigValue::List(items) => match items_as_texts(engine, key, items) {
                Ok(found) => Ok(Some(found)),
                Err(e) => Err(e),
            },
            other => Err(refuse(engine, key, other.type_str(), "an array of strings")),
        },
    }
}

/// A value, or another where there is none.
pub open spec fn or_else<T>(value: Option<T>, fallback: T) -> T {
    match value {
        Some(v) => v,
        None => fallback,
    }
}

/// The program that a table names, under either of its names.
pub open spec fn bin_at(
    engine: Seq<char>,
    table: Seq<(String, ConfigValue)>,
    fallback: Seq<char>,
) -> Result<Seq<char>, EngineFault> {
    match (text_at(engine, table, "bin"@), text_at(engine, table, "binary"@)) {
        (Err(e), _) => Err(e),
        (Ok(_), Err(e)) => Err(e),
        (Ok(bin), Ok(binary)) => {
            let chosen = or_else(bin, or_else(binary, fallback));
            if is_blank(chosen) {
                Err(EngineFault::NoBinary { engine })
            } else {
                Ok(chosen)
            }
        },
    }
}

/// An engine's invocation: what its table sets, and the shipped one for what it leaves out.
pub open spec fn invocation(
    engine: Seq<char>,
    shipped: Invocation,
    table: Option<Seq<(String, ConfigValue)>>,
) -> Result<Invocation, EngineFault> {
    match table {
        None => Ok(shipped),
        Some(t) => match bin_at(engine, t, shipped.bin) {
            Err(e) => Err(e),
            Ok(bin) => match texts_at(engine, t, "args"@) {
                Err(e) => Err(e),
                Ok(args) => match texts_at(engine, t, "version_args"@) {
                    Err(e) => Err(e),
                    Ok(version_args) => match flag_at(engine, t, "stdin_prompt"@) {
                        Err(e) => Err(e),
                        Ok(stdin_prompt) => match texts_at(engine, t, "pass_env"@) {
                            Err(e) => Err(e),
                            Ok(pass_env) => Ok(
                                Invocation {
                                    bin,
                                    args: or_else(args, shipped.args),
                                    version_args: or_else(version_args, shipped.version_args),
                                    stdin_prompt: or_else(stdin_prompt, shipped.stdin_prompt),
                                    pass_env: or_else(pass_env, shipped.pass_env),
                                },
                            ),
                        },
                    },
                },
            },
        },
    }
}

/// Read one engine's invocation: its own table first, the shipped invocation second. The program
/// is accepted as `bin` and as `binary`.
pub fn template_for(
    kind: EngineKind,
    shipped: InvocationTemplate,
    tables: &Tables,
) -> (r: Result<InvocationTemplate, EngineError>)
    ensures
        invocation(kind.word(), shipped@, table_at(tables@, kind.word())) == match r {
            Ok(t) => Ok::<Invocation, EngineFault>(t@),
            Err(e) => Err::<Invocation, EngineFault>(e@),
        },
{
    let table = match find_table(tables, kind.as_str()) {
        Some(table) => table,
        None => {
            return Ok(shipped);
        },
    };
    let name = kind.as_str();
    let bin: Option<String> = match string(name, table, "bin") {
        Ok(bin) => bin,
        Err(e) => {
            return Err(e);
        },
    };
    let binary: Option<String> = match string(name, table, "binary") {
        Ok(binary) => binary,
        Err(e) => {
            return Err(e);
        },
    };
    let bin: String = match bin {
        Some(bin) => bin,
        None => match binary {
            Some(binary) => binary,
            None => shipped.bin,
        },
    };
    if blank(bin.as_str()) {
        return Err(EngineError::NoBinary { engine: name.to_owned() });
    }
    let args: Vec<String> = match strings(name, table, "args") {
        Ok(Some(args)) => args,
        Ok(None) => shipped.args,
        Err(e) => {
            return Err(e);
        },
    };
    let version_args: Vec<String> = match strings(name, table, "version_args") {
        Ok(Some(args)) => args,
        Ok(None) => shipped.version_args,
        Err(e) => {
            return Err(e);
        },
    };
    let stdin_prompt: bool = match boolean(name, table, "stdin_prompt") {
        Ok(Some(flag)) => flag,
        Ok(None) => shipped.stdin_prompt,
        Err(e) => {
            return Err(e);
        },
    };
    let pass_env: Vec<String> = match strings(name, table, "pass_env") {
        Ok(Some(names)) => names,
        Ok(None) => shipped.pass_env,
        Err(e) => {
            return Err(e);
        },
    };
    Ok(InvocationTemplate { bin, args, version_args, stdin_prompt, pass_env })
}

/// The engine that reviews.
#[derive(Clone, Debug, PartialEq, Eq)]
pub enum EngineChoice {
    /// The mock.
    Mock,
    /// A command line.
    Cli {
        /// Which.
        kind: EngineKind,
        /// How it is invoked.
        template: InvocationTemplate,
    },
}

impl EngineChoice {
    /// Which engine this is.
    pub open spec fn name(self) -> Seq<char> {
        match self {
            Self::Mock => "mock"@,
            Self::Cli { kind, .. } => kind.word(),
        }
    }

    /// Which engine this is.
    pub fn id(&self) -> (r: EngineKind)
        ensures
            r.word() == self.name(),
    {
        match self {
            Self::Mock => EngineKind::mock(),
            Self::Cli { kind, .. } => *kind,
        }
    }
}

/// The engine that a repository names. The mock is a choice, not a fallback.
pub fn for_kind(
    kind: EngineKind,
    shipped: InvocationTemplate,
    tables: &Tables,
) -> (r: Result<EngineChoice, EngineError>)
    ensures
        ({
            let expected = invocation(kind.word(), shipped@, table_at(tables@, kind.word()));
            match r {
                Ok(choice) => choice.name() == kind.word() && (choice is Mock == kind.mocks()) && (
                choice is Cli ==> expected == Ok::<_, EngineFault>(choice->template@)),
                Err(e) => !kind.mocks() && expected == Err::<Invocation, _>(e@),
            }
        }),
{
    if is_mock(kind) {
        return Ok(EngineChoice::Mock);
    }
    match template_for(kind, shipped, tables) {
        Ok(template) => Ok(EngineChoice::Cli { kind, template }),
        Err(e) => Err(e),
    }
}

/// Whether a review with this engine spends nothing and invents its findings, so that a caller
/// can say which it used.
pub fn is_mock(kind: EngineKind) -> (r: bool)
    ensures
        r == kind.mocks(),
{
    same(kind.as_str(), "mock")
}

// --- what holds of every invocation ---

/// An engine is never invoked without a program, as long as the shipped invocation names one.
pub proof fn there_is_always_a_program(
    engine: Seq<char>,
    shipped: Invocation,
    table: Option<Seq<(String, ConfigValue)>>,
)
    requires
        !is_blank(shipped.bin),
    ensures
        invocation(engine, shipped, table) matches Ok(i) ==> !is_blank(i.bin),
{
}

/// A key that a table leaves out keeps what is shipped: a partial override is a partial override.
pub proof fn what_is_left_out_is_kept(
    engine: Seq<char>,
    shipped: Invocation,
    table: Seq<(String, ConfigValue)>,
)
    ensures
        invocation(engine, shipped, Some(table)) matches Ok(i) ==> {
            &&& value_at(table, "args"@) is None ==> i.args == shipped.args
            &&& value_at(table, "version_args"@) is None ==> i.version_args == shipped.version_args
            &&& value_at(table, "stdin_prompt"@) is None ==> i.stdin_prompt == shipped.stdin_prompt
            &&& value_at(table, "pass_env"@) is None ==> i.pass_env == shipped.pass_env
            &&& value_at(table, "bin"@) is None && value_at(table, "binary"@) is None ==> i.bin
                == shipped.bin
        },
{
}

/// Another engine's entry has no effect, wherever it stands: what is configured for one engine is
/// read from the entries under its own name alone.
pub proof fn an_unrelated_table_has_no_effect(
    engine: Seq<char>,
    shipped: Invocation,
    tables: Seq<(String, Option<Table>)>,
    at: int,
    other: (String, Option<Table>),
)
    requires
        0 <= at <= tables.len(),
        other.0@ != engine,
    ensures
        table_at(tables.insert(at, other), engine) == table_at(tables, engine),
        invocation(engine, shipped, table_at(tables.insert(at, other), engine)) == invocation(
            engine,
            shipped,
            table_at(tables, engine),
        ),
{
    let more = tables.insert(at, other);
    let p = entry_named(engine);
    first_index_means(tables, p);
    match first_index(tables, p) {
        Some(i) => {
            let k: int = if i < at {
                i
            } else {
                i + 1
            };
            assert(more[k] == tables[i]);
            assert forall|j: int| 0 <= j < k implies !p(#[trigger] more[j]) by {
                if j < at {
                    assert(more[j] == tables[j]);
                } else if j > at {
                    assert(more[j] == tables[j - 1]);
                }
            }
            first_index_is(more, p, k);
        },
        None => {
            assert forall|j: int| 0 <= j < more.len() implies !p(#[trigger] more[j]) by {
                if j < at {
                    assert(more[j] == tables[j]);
                } else if j > at {
                    assert(more[j] == tables[j - 1]);
                }
            }
            first_index_none(more, p);
        },
    }
}

/// A key of the wrong shape is an error, never a silent default.
pub proof fn a_malformed_table_is_refused(
    engine: Seq<char>,
    shipped: Invocation,
    table: Seq<(String, ConfigValue)>,
)
    requires
        text_at(engine, table, "bin"@) is Err || text_at(engine, table, "binary"@) is Err || texts_at(
            engine,
            table,
            "args"@,
        ) is Err || texts_at(engine, table, "version_args"@) is Err || flag_at(
            engine,
            table,
            "stdin_prompt"@,
        ) is Err || texts_at(engine, table, "pass_env"@) is Err,
    ensures
        invocation(engine, shipped, Some(table)) is Err,
{
}

/// The value of a key is that of its first entry.
pub proof fn a_key_has_its_first_value(table: Seq<(String, ConfigValue)>, key: Seq<char>, i: int)
    ensures
        0 <= i < table.len() && table[i].0@ == key && (forall|j: int| 0 <= j < i ==> (#[trigger] table[j]).0@ != key)
            ==> value_at(table, key) == Some(table[i].1),
        (forall|j: int| 0 <= j < table.len() ==> (#[trigger] table[j]).0@ != key) ==> value_at(table, key) is None,
{
    let p = keyed(key);
    if 0 <= i < table.len() && table[i].0@ == key && (forall|j: int| 0 <= j < i ==> (#[trigger] table[j]).0@ != key) {
        assert forall|j: int| 0 <= j < i implies !p(#[trigger] table[j]) by {}
        first_index_is(table, p, i);
    }
    if forall|j: int| 0 <= j < table.len() ==> (#[trigger] table[j]).0@ != key {
        assert forall|j: int| 0 <= j < table.len() implies !p(#[trigger] table[j]) by {}
        first_index_none(table, p);
    }
}

/// What a list of texts comes to: each of them, in order, unless one is none.
pub proof fn a_list_comes_to_its_texts(engine: Seq<char>, key: Seq<char>, items: Seq<ConfigItem>)
    ensures
        item_texts(engine, key, items) is Ok == forall|i: int|
            0 <= i < items.len() ==> (#[trigger] items[i]) is Text,
        item_texts(engine, key, items) matches Ok(found) ==> found.len() == items.len() && forall|i: int|
            0 <= i < items.len() ==> items[i]->Text_0@ == #[trigger] found[i],
    decreases items.len(),
{
    if items.len() > 0 {
        let before = items.drop_last();
        a_list_comes_to_its_texts(engine, key, before);
        if forall|i: int| 0 <= i < items.len() ==> (#[trigger] items[i]) is Text {
            assert forall|i: int| 0 <= i < before.len() implies (#[trigger] before[i]) is Text by {
                assert(items[i] is Text);
            }
            assert(items[items.len() - 1] is Text);
        }
        if item_texts(engine, key, items) is Ok {
            let found = item_texts(engine, key, items)->Ok_0;
            assert forall|i: int| 0 <= i < items.len() implies items[i]->Text_0@ == #[trigger] found[i] by {
                if i < before.len() {
                    assert(before[i] == items[i]);
                    assert(item_texts(engine, key, before)->Ok_0[i] == found[i]);
                }
            }
            assert forall|i: int| 0 <= i < items.len() implies (#[trigger] items[i]) is Text by {
                if i < before.len() {
                    assert(before[i] is Text);
                }
            }
        }
    }
}

/// What a table sets is what is used: the program under its one name or, where that is not set, under
/// the other, and each of the rest under its own.
pub proof fn what_is_set_is_used(engine: Seq<char>, shipped: Invocation, table: Seq<(String, ConfigValue)>, i: Invocation)
    requires
        invocation(engine, shipped, Some(table)) == Ok::<_, EngineFault>(i),
    ensures
        value_at(table, "bin"@) matches Some(v) ==> (v matches ConfigValue::Text(text) && i.bin == text@),
        value_at(table, "bin"@) is None && value_at(table, "binary"@) is Some ==> (value_at(
            table,
            "binary"@,
        )->0 matches ConfigValue::Text(text) && i.bin == text@),
        value_at(table, "stdin_prompt"@) matches Some(v) ==> v == ConfigValue::Flag(i.stdin_prompt),
        value_at(table, "args"@) matches Some(v) ==> (v matches ConfigValue::List(items) && item_texts(
            engine,
            "args"@,
            items@,
        ) == Ok::<_, EngineFault>(i.args)),
        value_at(table, "version_args"@) matches Some(v) ==> (v matches ConfigValue::List(items) && item_texts(
            engine,
            "version_args"@,
            items@,
        ) == Ok::<_, EngineFault>(i.version_args)),
        value_at(table, "pass_env"@) matches Some(v) ==> (v matches ConfigValue::List(items) && item_texts(
            engine,
            "pass_env"@,
            items@,
        ) == Ok::<_, EngineFault>(i.pass_env)),
        !is_blank(i.bin),
{
}

/// Without a table of its own an engine is called as it is shipped.
pub proof fn without_a_table_the_shipped_one_is_used(engine: Seq<char>, shipped: Invocation)
    ensures
        invocation(engine, shipped, None) == Ok::<_, EngineFault>(shipped),
{
}

/// A fault names the engine and the key, what was there and what should be.
pub proof fn a_fault_names_its_key(engine: Seq<char>, key: Seq<char>, found: Seq<char>, wanted: Seq<char>)
    ensures
        ({
            let said = fault_in_words(EngineFault::BadKey { engine, key, found, wanted });
            within(said, engine) && within(said, key) && within(said, found) && within(said, wanted)
        }),
        within(fault_in_words(EngineFault::NoBinary { engine }), engine),
{
    let said = fault_in_words(EngineFault::BadKey { engine, key, found, wanted });
    let end = "\n  try: fix it in your config, or delete the key to use the default"@;
    let a = "[engines."@;
    let b = "] has `"@;
    let c = "` as "@;
    let d = ", which should be "@;
    let one = b + key + c + found + d + wanted + end;
    stands_inside(a, engine, one);
    assert(a + engine + one =~= said);
    let two = c + found + d + wanted + end;
    stands_inside(a + engine + b, key, two);
    assert(a + engine + b + key + two =~= said);
    let three = d + wanted + end;
    stands_inside(a + engine + b + key + c, found, three);
    assert(a + engine + b + key + c + found + three =~= said);
    stands_inside(a + engine + b + key + c + found + d, wanted, end);
    stands_inside(
        a,
        engine,
        "] sets `bin` to an empty string, so there is nothing to run\n  try: set bin, or delete the key to use §8.4's default"@,
    );
}

/// The type of a value is told by its name, and one that is none of the types asked for by its own.
pub proof fn the_type_of_a_value_is_told(value: ConfigValue)
    ensures
        value is Text ==> value.type_word() == "string"@,
        value is Flag ==> value.type_word() == "boolean"@,
        value is List ==> value.type_word() == "array"@,
        value matches ConfigValue::Other(kind) ==> value.type_word() == kind@,
{
}

} // verus!
