//! The schema-driven configuration model: per-column policy, parsed from a
//! versioned document and flattened into a lookup structure.

use vstd::prelude::*;
use vstd::string::StringExecFns;
use crate::assoc::{assoc_map, lemma_assoc_at, lemma_assoc_empty, lemma_assoc_key, lemma_assoc_len, lemma_assoc_push};

verus! {

/// Table and column identifier for encryption configuration lookup.
#[derive(Clone, Debug, PartialEq, Eq, Hash)]
pub struct Identifier {
    /// The table name.
    pub table: String,
    /// The column name.
    pub column: String,
}

impl View for Identifier {
    type V = (Seq<char>, Seq<char>);

    open spec fn view(&self) -> (Seq<char>, Seq<char>) {
        (self.table@, self.column@)
    }
}

impl Identifier {
    /// Create a new table and column identifier.
    pub fn new(table: &str, column: &str) -> (id: Identifier)
        ensures
            id.table@ == table@,
            id.column@ == column@,
    {
        Identifier { table: String::from_str(table), column: String::from_str(column) }
    }

    /// A copy of this identifier.
    pub fn duplicate(&self) -> (id: Identifier)
        ensures
            id == *self,
    {
        Identifier { table: self.table.clone(), column: self.column.clone() }
    }
}


/// Data type casting options for encrypted columns.
#[derive(Clone, Copy, Debug, PartialEq, Eq, Structural)]
pub enum CastAs {
    /// Treat as UTF-8 text (default).
    Text,
    /// Treat as a boolean value.
    Boolean,
    /// Treat as a 16-bit integer.
    SmallInt,
    /// Treat as a 32-bit integer.
    Int,
    /// Treat as a 64-bit integer.
    BigInt,
    /// Treat as a single-precision float.
    Real,
    /// Treat as a double-precision float.
    Double,
    /// Treat as a date.
    Date,
    /// Treat as a JSONB value.
    JsonB,
}

/// The value type that the encryption backend works on.
#[derive(Clone, Copy, Debug, PartialEq, Eq, Structural)]
pub enum ColumnType {
    BigInt,
    BigUInt,
    Boolean,
    Date,
    Decimal,
    Float,
    Int,
    SmallInt,
    Timestamp,
    Utf8Str,
    JsonB,
}

impl Default for CastAs {
    fn default() -> (cast_as: CastAs)
        ensures
            cast_as == CastAs::Text,
    {
        CastAs::Text
    }
}

impl CastAs {
    /// The name of a cast on the wire and in configuration documents.
    pub open spec fn name(self) -> Seq<char> {
        match self {
            CastAs::Text => "text"@,
            CastAs::Boolean => "boolean"@,
            CastAs::SmallInt => "small_int"@,
            CastAs::Int => "int"@,
            CastAs::BigInt => "big_int"@,
            CastAs::Real => "real"@,
            CastAs::Double => "double"@,
            CastAs::Date => "date"@,
            CastAs::JsonB => "jsonb"@,
        }
    }

    /// The value type that a cast resolves to. Single and double precision
    /// both resolve to the one float type.
    pub open spec fn column_type(self) -> ColumnType {
        match self {
            CastAs::Text => ColumnType::Utf8Str,
            CastAs::Boolean => ColumnType::Boolean,
            CastAs::SmallInt => ColumnType::SmallInt,
            CastAs::Int => ColumnType::Int,
            CastAs::BigInt => ColumnType::BigInt,
            CastAs::Real => ColumnType::Float,
            CastAs::Double => ColumnType::Float,
            CastAs::Date => ColumnType::Date,
            CastAs::JsonB => ColumnType::JsonB,
        }
    }

    /// The name of the cast, as carried in an envelope's data-type field.
    pub fn to_string(&self) -> (name: String)
        ensures
            name@ == self.name(),
    {
        match self {
            CastAs::Text => String::from_str("text"),
            CastAs::Boolean => String::from_str("boolean"),
            CastAs::SmallInt => String::from_str("small_int"),
            CastAs::Int => String::from_str("int"),
            CastAs::BigInt => String::from_str("big_int"),
            CastAs::Real => String::from_str("real"),
            CastAs::Double => String::from_str("double"),
            CastAs::Date => String::from_str("date"),
            CastAs::JsonB => String::from_str("jsonb"),
        }
    }
}

impl From<CastAs> for ColumnType {
    fn from(value: CastAs) -> (column_type: ColumnType) {
        match value {
            CastAs::Text => ColumnType::Utf8Str,
            CastAs::Boolean => ColumnType::Boolean,
            CastAs::SmallInt => ColumnType::SmallInt,
            CastAs::Int => ColumnType::Int,
            CastAs::BigInt => ColumnType::BigInt,
            CastAs::Real | CastAs::Double => ColumnType::Float,
            CastAs::Date => ColumnType::Date,
            CastAs::JsonB => ColumnType::JsonB,
        }
    }
}

impl vstd::std_specs::convert::FromSpecImpl<CastAs> for ColumnType {
    open spec fn obeys_from_spec() -> bool {
        true
    }

    open spec fn from_spec(value: CastAs) -> ColumnType {
        value.column_type()
    }
}

/// Every cast resolves to exactly one value type, and the two float casts
/// resolve to the same one.
pub proof fn lemma_float_casts_share_a_type()
    ensures
        CastAs::Real.column_type() == CastAs::Double.column_type(),
        CastAs::Real.column_type() == ColumnType::Float,
        forall|cast_as: CastAs|
            (#[trigger] cast_as.column_type() == ColumnType::Float) <==> (cast_as == CastAs::Real
                || cast_as == CastAs::Double),
        forall|cast_as: CastAs|
            (#[trigger] cast_as.column_type() == ColumnType::JsonB) <==> cast_as == CastAs::JsonB,
{
}

/// How text is split into tokens for a full-text index.
#[derive(Clone, Copy, Debug, PartialEq, Eq, Structural)]
pub enum Tokenizer {
    EdgeNgram { min_gram: usize, max_gram: usize },
    Ngram { token_length: usize },
    Standard,
}

/// A transformation applied to tokens before they are indexed.
#[derive(Clone, Copy, Debug, PartialEq, Eq, Structural)]
pub enum TokenFilter {
    Upcase,
    Downcase,
    Stemmer,
    Stop,
}

/// Default tokenizer for match indexes.
pub fn default_tokenizer() -> (tokenizer: Tokenizer)
    ensures
        tokenizer == Tokenizer::Standard,
{
    Tokenizer::Standard
}

/// Default hash function count for bloom filters.
pub fn default_k() -> (k: usize)
    ensures
        k == 6,
{
    6
}

/// Default bloom filter size in bits.
pub fn default_m() -> (m: usize)
    ensures
        m == 2048,
{
    2048
}


/// Configuration options for order-revealing encryption indexes.
#[derive(Clone, Copy, Debug, PartialEq, Eq, Structural)]
pub struct OreIndexOpts {}

/// Configuration options for full-text search indexes using bloom filters.
#[derive(Clone, Debug, PartialEq)]
pub struct MatchIndexOpts {
    /// The tokenizer to use for splitting text.
    pub tokenizer: Tokenizer,
    /// Token filters to apply to tokens.
    pub token_filters: Vec<TokenFilter>,
    /// Number of hash functions for the bloom filter.
    pub k: usize,
    /// Bloom filter size in bits.
    pub m: usize,
    /// Whether to include the original value in the index.
    pub include_original: bool,
}

/// Configuration options for structured text encryption vectors.
#[derive(Clone, Debug, PartialEq)]
pub struct SteVecIndexOpts {
    /// The prefix for the structured text encryption vector.
    pub prefix: String,
}

/// Configuration options for HMAC unique indexes that enable exact equality
/// queries and database uniqueness constraints.
#[derive(Clone, Debug, PartialEq)]
pub struct UniqueIndexOpts {
    /// Token filters to apply to unique index tokens.
    pub token_filters: Vec<TokenFilter>,
}

/// Collection of indexes for searchable encryption and uniqueness
/// constraints.
#[derive(Clone, Debug, PartialEq)]
pub struct Indexes {
    /// Unique index for exact equality queries and enforcing database
    /// uniqueness constraints.
    pub unique_index: Option<UniqueIndexOpts>,
    /// Order-revealing encryption index for equality checks, range
    /// comparisons, range queries, and sorting operations.
    pub ore_index: Option<OreIndexOpts>,
    /// Full-text search index using bloom filters for probabilistic text
    /// matching.
    pub match_index: Option<MatchIndexOpts>,
    /// Structured text encryption vector index for JSONB containment
    /// queries.
    pub ste_vec_index: Option<SteVecIndexOpts>,
}

/// Column configuration with casting and encryption indexes.
#[derive(Clone, Debug, PartialEq)]
pub struct Column {
    /// Data type casting for this column.
    pub cast_as: CastAs,
    /// Collection of encryption indexes for this column.
    pub indexes: Indexes,
}

/// The options of a full-text index, as mathematical values.
pub struct MatchIndexModel {
    pub tokenizer: Tokenizer,
    pub token_filters: Seq<TokenFilter>,
    pub k: usize,
    pub m: usize,
    pub include_original: bool,
}

/// The index set of a column, as mathematical values: for each of the four
/// kinds, whether it is configured and with which options.
pub struct IndexesModel {
    /// The filters of the exact-match index, where one is configured.
    pub unique_index: Option<Seq<TokenFilter>>,
    /// Whether an order-revealing index is configured.
    pub ore_index: bool,
    /// The options of the full-text index, where one is configured.
    pub match_index: Option<MatchIndexModel>,
    /// The prefix of the structural index, where one is configured.
    pub ste_vec_index: Option<Seq<char>>,
}

/// The policy of a column, as mathematical values.
pub struct ColumnModel {
    pub cast_as: CastAs,
    pub indexes: IndexesModel,
}

impl View for MatchIndexOpts {
    type V = MatchIndexModel;

    open spec fn view(&self) -> MatchIndexModel {
        MatchIndexModel {
            tokenizer: self.tokenizer,
            token_filters: self.token_filters@,
            k: self.k,
            m: self.m,
            include_original: self.include_original,
        }
    }
}

impl View for Indexes {
    type V = IndexesModel;

    open spec fn view(&self) -> IndexesModel {
        IndexesModel {
            unique_index: match self.unique_index {
                Some(opts) => Some(opts.token_filters@),
                None => None,
            },
            ore_index: self.ore_index is Some,
            match_index: match self.match_index {
                Some(opts) => Some(opts@),
                None => None,
            },
            ste_vec_index: match self.ste_vec_index {
                Some(opts) => Some(opts.prefix@),
                None => None,
            },
        }
    }
}

impl View for Column {
    type V = ColumnModel;

    open spec fn view(&self) -> ColumnModel {
        ColumnModel { cast_as: self.cast_as, indexes: self.indexes@ }
    }
}

impl IndexesModel {
    /// The index set in which nothing is configured.
    pub open spec fn none() -> IndexesModel {
        IndexesModel { unique_index: None, ore_index: false, match_index: None, ste_vec_index: None }
    }
}

impl Default for Indexes {
    fn default() -> (indexes: Indexes)
        ensures
            indexes@ == IndexesModel::none(),
    {
        Indexes { unique_index: None, ore_index: None, match_index: None, ste_vec_index: None }
    }
}

impl Default for Column {
    fn default() -> (column: Column)
        ensures
            column@ == (ColumnModel { cast_as: CastAs::Text, indexes: IndexesModel::none() }),
    {
        Column { cast_as: CastAs::Text, indexes: Indexes::default() }
    }
}

/// The kind of a searchable index with its options, as handed to the
/// encryption backend.
#[derive(Clone, Debug, PartialEq)]
pub enum IndexType {
    Ore,
    Match {
        tokenizer: Tokenizer,
        token_filters: Vec<TokenFilter>,
        k: usize,
        m: usize,
        include_original: bool,
    },
    Unique { token_filters: Vec<TokenFilter> },
    SteVec { prefix: String },
}

/// A searchable index of a column.
#[derive(Clone, Debug, PartialEq)]
pub struct Index {
    pub version: usize,
    pub index_type: IndexType,
}

/// The policy of one column in the form the encryption backend takes: its
/// name, its value type, and its indexes in a fixed order.
#[derive(Clone, Debug)]
pub struct ColumnConfig {
    pub name: String,
    pub cast_type: ColumnType,
    pub indexes: Vec<Index>,
}

/// An index kind with its options, as mathematical values.
pub enum IndexTypeModel {
    Ore,
    Match(MatchIndexModel),
    Unique { token_filters: Seq<TokenFilter> },
    SteVec { prefix: Seq<char> },
}

/// An index, as mathematical values.
pub struct IndexModel {
    pub version: usize,
    pub index_type: IndexTypeModel,
}

/// A column's backend policy, as mathematical values.
pub struct ColumnConfigModel {
    pub name: Seq<char>,
    pub cast_type: ColumnType,
    pub indexes: Seq<IndexModel>,
}

impl View for IndexType {
    type V = IndexTypeModel;

    open spec fn view(&self) -> IndexTypeModel {
        match *self {
            IndexType::Ore => IndexTypeModel::Ore,
            IndexType::Match { tokenizer, token_filters, k, m, include_original } => {
                IndexTypeModel::Match(
                    MatchIndexModel {
                        tokenizer,
                        token_filters: token_filters@,
                        k,
                        m,
                        include_original,
                    },
                )
            },
            IndexType::Unique { token_filters } => IndexTypeModel::Unique {
                token_filters: token_filters@,
            },
            IndexType::SteVec { prefix } => IndexTypeModel::SteVec { prefix: prefix@ },
        }
    }
}

impl View for Index {
    type V = IndexModel;

    open spec fn view(&self) -> IndexModel {
        IndexModel { version: self.version, index_type: self.index_type@ }
    }
}

/// The views of a sequence of indexes, item by item.
pub open spec fn index_views(indexes: Seq<Index>) -> Seq<IndexModel> {
    indexes.map_values(|index: Index| index@)
}

impl View for ColumnConfig {
    type V = ColumnConfigModel;

    open spec fn view(&self) -> ColumnConfigModel {
        ColumnConfigModel {
            name: self.name@,
            cast_type: self.cast_type,
            indexes: index_views(self.indexes@),
        }
    }
}

impl Index {
    /// An index of the given kind, at the current index version.
    pub fn new(index_type: IndexType) -> (index: Index)
        ensures
            index.version == 1,
            index.index_type == index_type,
    {
        Index { version: 1, index_type }
    }

    /// A copy of this index.
    pub fn duplicate(&self) -> (index: Index)
        ensures
            index@ == self@,
    {
        Index { version: self.version, index_type: self.index_type.duplicate() }
    }
}

impl IndexType {
    /// A copy of this index kind and its options.
    pub fn duplicate(&self) -> (index_type: IndexType)
        ensures
            index_type@ == self@,
    {
        match self {
            IndexType::Ore => IndexType::Ore,
            IndexType::Match { tokenizer, token_filters, k, m, include_original } => {
                IndexType::Match {
                    tokenizer: *tokenizer,
                    token_filters: copy_filters(token_filters),
                    k: *k,
                    m: *m,
                    include_original: *include_original,
                }
            },
            IndexType::Unique { token_filters } => IndexType::Unique {
                token_filters: copy_filters(token_filters),
            },
            IndexType::SteVec { prefix } => IndexType::SteVec { prefix: prefix.clone() },
        }
    }
}

impl ColumnConfig {
    /// A copy of this policy.
    pub fn duplicate(&self) -> (config: ColumnConfig)
        ensures
            config@ == self@,
    {
        let mut indexes: Vec<Index> = Vec::new();
        let mut i: usize = 0;
        while i < self.indexes.len()
            invariant
                i <= self.indexes.len(),
                indexes@.len() == i,
                forall|j: int| 0 <= j < i ==> (#[trigger] indexes@[j])@ == self.indexes@[j]@,
            decreases self.indexes.len() - i,
        {
            indexes.push(self.indexes[i].duplicate());
            i += 1;
        }
        assert(index_views(indexes@) =~= index_views(self.indexes@));
        ColumnConfig { name: self.name.clone(), cast_type: self.cast_type, indexes }
    }

    /// Whether a structural index is among the indexes.
    pub fn has_ste_vec(&self) -> (found: bool)
        ensures
            found == self@.has_ste_vec(),
    {
        let mut i: usize = 0;
        while i < self.indexes.len()
            invariant
                i <= self.indexes.len(),
                forall|j: int| 0 <= j < i ==> !((#[trigger] index_views(self.indexes@)[j]).index_type is SteVec),
            decreases self.indexes.len() - i,
        {
            if let IndexType::SteVec { .. } = &self.indexes[i].index_type {
                assert(index_views(self.indexes@)[i as int].index_type is SteVec);
                return true;
            }
            assert(!(index_views(self.indexes@)[i as int].index_type is SteVec));
            i += 1;
        }
        false
    }

    /// Whether input for this column is read as JSON before encryption.
    pub fn needs_json_parsing(&self) -> (needed: bool)
        ensures
            needed == self@.needs_json_parsing(),
    {
        self.cast_type == ColumnType::JsonB && self.has_ste_vec()
    }
}

impl IndexModel {
    /// An index of the given kind, at the current index version.
    pub open spec fn of(index_type: IndexTypeModel) -> IndexModel {
        IndexModel { version: 1, index_type }
    }
}

impl ColumnConfigModel {
    /// Whether a structural index is among the indexes.
    pub open spec fn has_ste_vec(self) -> bool {
        exists|i: int| 0 <= i < self.indexes.len() && (#[trigger] self.indexes[i]).index_type is SteVec
    }

    /// Whether input for this column is read as JSON before encryption:
    /// only a JSON column with a structural index.
    pub open spec fn needs_json_parsing(self) -> bool {
        self.cast_type == ColumnType::JsonB && self.has_ste_vec()
    }
}

impl IndexesModel {
    /// The indexes that the backend is asked for, in their fixed order:
    /// exact-match, order-revealing, full-text, structural.
    pub open spec fn to_indexes(self) -> Seq<IndexModel> {
        (match self.unique_index {
            Some(token_filters) => seq![IndexModel::of(IndexTypeModel::Unique { token_filters })],
            None => seq![],
        }) + (if self.ore_index {
            seq![IndexModel::of(IndexTypeModel::Ore)]
        } else {
            seq![]
        }) + (match self.match_index {
            Some(opts) => seq![IndexModel::of(IndexTypeModel::Match(opts))],
            None => seq![],
        }) + (match self.ste_vec_index {
            Some(prefix) => seq![IndexModel::of(IndexTypeModel::SteVec { prefix })],
            None => seq![],
        })
    }
}

impl ColumnModel {
    /// The backend policy of a column with the given name.
    pub open spec fn to_column_config(self, name: Seq<char>) -> ColumnConfigModel {
        ColumnConfigModel {
            name,
            cast_type: self.cast_as.column_type(),
            indexes: self.indexes.to_indexes(),
        }
    }
}

/// A column without configured indexes asks the backend for none.
pub proof fn lemma_no_indexes_asks_for_none(cast_as: CastAs, name: Seq<char>)
    ensures
        (ColumnModel { cast_as, indexes: IndexesModel::none() }).to_column_config(name).indexes
            == Seq::<IndexModel>::empty(),
        !(ColumnModel { cast_as, indexes: IndexesModel::none() }).to_column_config(
            name,
        ).needs_json_parsing(),
{
    assert(IndexesModel::none().to_indexes() =~= Seq::<IndexModel>::empty());
}

/// A copy of a filter list.
fn copy_filters(filters: &Vec<TokenFilter>) -> (copy: Vec<TokenFilter>)
    ensures
        copy@ == filters@,
{
    let mut copy: Vec<TokenFilter> = Vec::new();
    let mut i: usize = 0;
    while i < filters.len()
        invariant
            i <= filters.len(),
            copy@ == filters@.subrange(0, i as int),
        decreases filters.len() - i,
    {
        copy.push(filters[i]);
        i += 1;
        assert(copy@ =~= filters@.subrange(0, i as int));
    }
    assert(filters@.subrange(0, filters.len() as int) =~= filters@);
    copy
}

impl Column {
    /// The backend policy of this column under the given name.
    pub fn to_column_config(&self, name: &str) -> (config: ColumnConfig)
        ensures
            config@ == self@.to_column_config(name@),
    {
        let ghost model = self@;
        let mut indexes: Vec<Index> = Vec::new();
        assert(index_views(indexes@) =~= Seq::<IndexModel>::empty());
        if let Some(opts) = &self.indexes.unique_index {
            let ghost before = indexes@;
            indexes.push(
                Index::new(IndexType::Unique { token_filters: copy_filters(&opts.token_filters) }),
            );
            assert(index_views(indexes@) =~= index_views(before) + seq![
                IndexModel::of(
                    IndexTypeModel::Unique { token_filters: model.indexes.unique_index->0 },
                ),
            ]);
        }
        if self.indexes.ore_index.is_some() {
            let ghost before = indexes@;
            indexes.push(Index::new(IndexType::Ore));
            assert(index_views(indexes@) =~= index_views(before) + seq![
                IndexModel::of(IndexTypeModel::Ore),
            ]);
        }
        if let Some(opts) = &self.indexes.match_index {
            let ghost before = indexes@;
            indexes.push(
                Index::new(
                    IndexType::Match {
                        tokenizer: opts.tokenizer,
                        token_filters: copy_filters(&opts.token_filters),
                        k: opts.k,
                        m: opts.m,
                        include_original: opts.include_original,
                    },
                ),
            );
            assert(index_views(indexes@) =~= index_views(before) + seq![
                IndexModel::of(IndexTypeModel::Match(model.indexes.match_index->0)),
            ]);
        }
        if let Some(opts) = &self.indexes.ste_vec_index {
            let ghost before = indexes@;
            indexes.push(Index::new(IndexType::SteVec { prefix: opts.prefix.clone() }));
            assert(index_views(indexes@) =~= index_views(before) + seq![
                IndexModel::of(IndexTypeModel::SteVec { prefix: model.indexes.ste_vec_index->0 }),
            ]);
        }
        assert(index_views(indexes@) =~= model.indexes.to_indexes());
        ColumnConfig {
            name: String::from_str(name),
            cast_type: ColumnType::from(self.cast_as),
            indexes,
        }
    }

    /// Convert this column configuration into a [`ColumnConfig`].
    pub fn into_column_config(self, name: &str) -> (config: ColumnConfig)
        ensures
            config@ == self@.to_column_config(name@),
    {
        self.to_column_config(name)
    }
}

/// Table configuration containing column definitions indexed by column
/// name. Each column name occurs once.
#[derive(Debug)]
pub struct Table {
    entries: Vec<(String, Column)>,
}

/// Collection of table configurations indexed by table name. Each table
/// name occurs once.
#[derive(Debug)]
pub struct Tables {
    entries: Vec<(String, Table)>,
}

/// Root encryption configuration structure parsed from JSON.
#[derive(Debug)]
pub struct EncryptConfig {
    /// The schema version.
    pub version: u32,
    /// The set of table configurations.
    pub tables: Tables,
}

/// The policies of a table's columns, by column name.
pub type TableModel = Map<Seq<char>, ColumnModel>;

/// The tables of a configuration, by table name.
pub type TablesModel = Map<Seq<char>, TableModel>;

/// A configuration, as mathematical values.
pub struct EncryptConfigModel {
    pub version: u32,
    pub tables: TablesModel,
}

/// The names of a list of named columns, in order.
pub open spec fn column_names(entries: Seq<(String, Column)>) -> Seq<Seq<char>> {
    entries.map_values(|entry: (String, Column)| entry.0@)
}

/// The policies of a list of named columns, in order.
pub open spec fn column_models(entries: Seq<(String, Column)>) -> Seq<ColumnModel> {
    entries.map_values(|entry: (String, Column)| entry.1@)
}

/// The names of a list of named tables, in order.
pub open spec fn table_names(entries: Seq<(String, Table)>) -> Seq<Seq<char>> {
    entries.map_values(|entry: (String, Table)| entry.0@)
}

/// The contents of a list of named tables, in order.
pub open spec fn table_models(entries: Seq<(String, Table)>) -> Seq<TableModel> {
    entries.map_values(|entry: (String, Table)| entry.1@)
}

impl Table {
    /// The column names, in storage order.
    pub closed spec fn names(self) -> Seq<Seq<char>> {
        column_names(self.entries@)
    }

    /// The column policies, in storage order.
    pub closed spec fn columns(self) -> Seq<ColumnModel> {
        column_models(self.entries@)
    }

    /// The table that holds the given columns under the given, distinct
    /// names.
    pub(crate) fn from_entries(entries: Vec<(String, Column)>) -> (table: Table)
        requires
            column_names(entries@).no_duplicates(),
        ensures
            table@ == assoc_map(column_names(entries@), column_models(entries@)),
    {
        Table { entries }
    }

    /// The named columns of the table, each name once.
    pub fn into_entries(self) -> (entries: Vec<(String, Column)>)
        ensures
            column_names(entries@).no_duplicates(),
            self@ == assoc_map(column_names(entries@), column_models(entries@)),
    {
        proof {
            use_type_invariant(&self);
        }
        self.entries
    }

    /// No column name occurs twice.
    #[verifier::type_invariant]
    pub closed spec fn well_formed(self) -> bool {
        self.names().no_duplicates()
    }
}

impl View for Table {
    type V = TableModel;

    closed spec fn view(&self) -> TableModel {
        assoc_map(self.names(), self.columns())
    }
}

impl Default for Table {
    fn default() -> (table: Table)
        ensures
            table@ == TableModel::empty(),
    {
        let entries: Vec<(String, Column)> = Vec::new();
        let table = Table { entries };
        proof {
            assert(table.names() =~= Seq::<Seq<char>>::empty());
            assert(table.columns() =~= Seq::<ColumnModel>::empty());
            lemma_assoc_empty::<Seq<char>, ColumnModel>();
        }
        table
    }
}

impl Tables {
    /// The table names, in storage order.
    pub closed spec fn names(self) -> Seq<Seq<char>> {
        table_names(self.entries@)
    }

    /// The tables' contents, in storage order.
    pub closed spec fn tables(self) -> Seq<TableModel> {
        table_models(self.entries@)
    }

    /// The collection that holds the given tables under the given, distinct
    /// names.
    pub(crate) fn from_entries(entries: Vec<(String, Table)>) -> (tables: Tables)
        requires
            table_names(entries@).no_duplicates(),
        ensures
            tables@ == assoc_map(table_names(entries@), table_models(entries@)),
    {
        Tables { entries }
    }

    /// The named tables of the collection, each name once.
    pub fn into_entries(self) -> (entries: Vec<(String, Table)>)
        ensures
            table_names(entries@).no_duplicates(),
            self@ == assoc_map(table_names(entries@), table_models(entries@)),
    {
        proof {
            use_type_invariant(&self);
        }
        self.entries
    }

    /// No table name occurs twice.
    #[verifier::type_invariant]
    pub closed spec fn well_formed(self) -> bool {
        self.names().no_duplicates()
    }
}

impl View for Tables {
    type V = TablesModel;

    closed spec fn view(&self) -> TablesModel {
        assoc_map(self.names(), self.tables())
    }
}

impl Default for Tables {
    fn default() -> (tables: Tables)
        ensures
            tables@ == TablesModel::empty(),
    {
        let entries: Vec<(String, Table)> = Vec::new();
        let tables = Tables { entries };
        proof {
            assert(tables.names() =~= Seq::<Seq<char>>::empty());
            assert(tables.tables() =~= Seq::<TableModel>::empty());
            lemma_assoc_empty::<Seq<char>, TableModel>();
        }
        tables
    }
}

impl View for EncryptConfig {
    type V = EncryptConfigModel;

    open spec fn view(&self) -> EncryptConfigModel {
        EncryptConfigModel { version: self.version, tables: self.tables@ }
    }
}

impl Default for EncryptConfig {
    fn default() -> (config: EncryptConfig)
        ensures
            config@ == (EncryptConfigModel { version: 0, tables: TablesModel::empty() }),
    {
        EncryptConfig { version: 0, tables: Tables::default() }
    }
}


/// The lookup structure of a configuration, as a mathematical map from
/// (table name, column name) to the column's backend policy and cast.
pub type ConfigMapModel = Map<(Seq<char>, Seq<char>), (ColumnConfigModel, CastAs)>;

/// Flattens table → column → policy into a map keyed by identifier: an
/// identifier is present exactly when its table has its column, and it is
/// mapped to that column's backend policy and cast.
pub open spec fn flatten(tables: TablesModel) -> ConfigMapModel {
    Map::new(
        |id: (Seq<char>, Seq<char>)| tables.contains_key(id.0) && tables[id.0].contains_key(id.1),
        |id: (Seq<char>, Seq<char>)|
            (tables[id.0][id.1].to_column_config(id.1), tables[id.0][id.1].cast_as),
    )
}

/// The identifiers of a list of lookup entries, in order.
pub open spec fn entry_keys(entries: Seq<(Identifier, (ColumnConfig, CastAs))>) -> Seq<
    (Seq<char>, Seq<char>),
> {
    entries.map_values(|entry: (Identifier, (ColumnConfig, CastAs))| entry.0@)
}

/// The policies of a list of lookup entries, in order.
pub open spec fn entry_values(entries: Seq<(Identifier, (ColumnConfig, CastAs))>) -> Seq<
    (ColumnConfigModel, CastAs),
> {
    entries.map_values(|entry: (Identifier, (ColumnConfig, CastAs))| (entry.1.0@, entry.1.1))
}

/// The immutable lookup structure from identifier to column policy. Each
/// identifier occurs once.
#[derive(Debug)]
pub struct ConfigMap {
    entries: Vec<(Identifier, (ColumnConfig, CastAs))>,
}

impl ConfigMap {
    /// No identifier occurs twice.
    #[verifier::type_invariant]
    pub closed spec fn well_formed(self) -> bool {
        entry_keys(self.entries@).no_duplicates()
    }

    /// The policy configured for an identifier, if there is one.
    pub fn get(&self, identifier: &Identifier) -> (found: Option<&(ColumnConfig, CastAs)>)
        ensures
            match found {
                Some(entry) => self@.contains_key(identifier@) && self@[identifier@] == (
                    entry.0@,
                    entry.1,
                ),
                None => !self@.contains_key(identifier@),
            },
    {
        proof {
            use_type_invariant(self);
        }
        let ghost keys = entry_keys(self.entries@);
        let ghost values = entry_values(self.entries@);
        let mut i: usize = 0;
        while i < self.entries.len()
            invariant
                i <= self.entries.len(),
                keys == entry_keys(self.entries@),
                values == entry_values(self.entries@),
                keys.no_duplicates(),
                forall|j: int| 0 <= j < i ==> keys[j] != identifier@,
            decreases self.entries.len() - i,
        {
            let entry = &self.entries[i];
            if entry.0.table == identifier.table && entry.0.column == identifier.column {
                proof {
                    assert(keys[i as int] == identifier@);
                    lemma_assoc_at(keys, values, i as int);
                }
                return Some(&entry.1);
            }
            i += 1;
        }
        proof {
            if self@.contains_key(identifier@) {
                let j = lemma_assoc_key(keys, values, identifier@);
            }
        }
        None
    }

    /// The number of configured columns.
    pub fn len(&self) -> (n: usize)
        ensures
            self@.dom().finite(),
            n == self@.len(),
    {
        proof {
            use_type_invariant(self);
            lemma_assoc_len(entry_keys(self.entries@), entry_values(self.entries@));
        }
        self.entries.len()
    }

    /// Whether no column is configured.
    pub fn is_empty(&self) -> (empty: bool)
        ensures
            empty == (self@ == ConfigMapModel::empty()),
    {
        proof {
            use_type_invariant(self);
            let keys = entry_keys(self.entries@);
            let values = entry_values(self.entries@);
            if self.entries@.len() == 0 {
                assert(self@ =~= ConfigMapModel::empty());
            } else {
                lemma_assoc_at(keys, values, 0);
            }
        }
        self.entries.len() == 0
    }
}

impl View for ConfigMap {
    type V = ConfigMapModel;

    closed spec fn view(&self) -> ConfigMapModel {
        assoc_map(entry_keys(self.entries@), entry_values(self.entries@))
    }
}


/// Whether one of the first `n` tables has the identifier's name and holds
/// the identifier's column.
pub open spec fn in_first_tables(
    names: Seq<Seq<char>>,
    tables: Seq<TableModel>,
    n: int,
    id: (Seq<char>, Seq<char>),
) -> bool {
    exists|t: int| 0 <= t < n && #[trigger] names[t] == id.0 && tables[t].contains_key(id.1)
}

/// Whether one of the first `n` column names is the given one.
pub open spec fn in_first_names(names: Seq<Seq<char>>, n: int, name: Seq<char>) -> bool {
    exists|c: int| 0 <= c < n && #[trigger] names[c] == name
}

impl EncryptConfig {
    /// Convert the encryption configuration into a [`ConfigMap`] mapping
    /// each [`Identifier`] to the [`ColumnConfig`] and cast of its column.
    pub fn into_config_map(self) -> (map: ConfigMap)
        ensures
            map@ == flatten(self.tables@),
    {
        proof {
            use_type_invariant(&self.tables);
        }
        let ghost tnames = self.tables.names();
        let ghost tvals = self.tables.tables();
        let ghost model = self.tables@;
        let mut entries: Vec<(Identifier, (ColumnConfig, CastAs))> = Vec::new();
        proof {
            assert(entry_keys(entries@) =~= Seq::empty());
        }
        let mut i: usize = 0;
        while i < self.tables.entries.len()
            invariant
                i <= self.tables.entries.len(),
                self.tables.well_formed(),
                tnames == self.tables.names(),
                tvals == self.tables.tables(),
                model == assoc_map(tnames, tvals),
                entry_keys(entries@).no_duplicates(),
                forall|id: (Seq<char>, Seq<char>)|
                    #[trigger] entry_keys(entries@).contains(id) <==> in_first_tables(
                        tnames,
                        tvals,
                        i as int,
                        id,
                    ),
                forall|e: int|
                    0 <= e < entries@.len() ==> (#[trigger] entry_values(entries@)[e]) == flatten(
                        model,
                    )[entry_keys(entries@)[e]],
            decreases self.tables.entries.len() - i,
        {
            let table_name = &self.tables.entries[i].0;
            let table = &self.tables.entries[i].1;
            proof {
                use_type_invariant(table);
                lemma_assoc_at(tnames, tvals, i as int);
            }
            let ghost cnames = table.names();
            let ghost cvals = table.columns();
            let mut j: usize = 0;
            while j < table.entries.len()
                invariant
                    i < self.tables.entries.len(),
                    j <= table.entries.len(),
                    self.tables.well_formed(),
                    tnames == self.tables.names(),
                    tvals == self.tables.tables(),
                    model == assoc_map(tnames, tvals),
                    table_name@ == tnames[i as int],
                    table@ == tvals[i as int],
                    model.contains_key(tnames[i as int]),
                    model[tnames[i as int]] == tvals[i as int],
                    table.well_formed(),
                    cnames == table.names(),
                    cvals == table.columns(),
                    entry_keys(entries@).no_duplicates(),
                    forall|id: (Seq<char>, Seq<char>)|
                        #[trigger] entry_keys(entries@).contains(id) <==> (in_first_tables(
                            tnames,
                            tvals,
                            i as int,
                            id,
                        ) || (id.0 == tnames[i as int] && in_first_names(cnames, j as int, id.1))),
                    forall|e: int|
                        0 <= e < entries@.len() ==> (#[trigger] entry_values(entries@)[e])
                            == flatten(model)[entry_keys(entries@)[e]],
                decreases table.entries.len() - j,
            {
                let column_name = &table.entries[j].0;
                let column = &table.entries[j].1;
                let config = column.to_column_config(column_name.as_str());
                let key = Identifier::new(table_name.as_str(), column_name.as_str());
                let ghost old_entries = entries@;
                let ghost id = key@;
                proof {
                    assert(id == (tnames[i as int], cnames[j as int]));
                    lemma_assoc_at(cnames, cvals, j as int);
                    // the identifier is new
                    if entry_keys(old_entries).contains(id) {
                        if in_first_tables(tnames, tvals, i as int, id) {
                            let t = choose|t: int|
                                0 <= t < i && #[trigger] tnames[t] == id.0 && tvals[t].contains_key(
                                    id.1,
                                );
                            assert(tnames[t] == tnames[i as int]);
                        } else {
                            let c = choose|c: int| 0 <= c < j && #[trigger] cnames[c] == id.1;
                            assert(cnames[c] == cnames[j as int]);
                        }
                        assert(false);
                    }
                }
                entries.push((key, (config, column.cast_as)));
                proof {
                    let value = (config@, column.cast_as);
                    assert(entry_keys(entries@) =~= entry_keys(old_entries).push(id));
                    assert(entry_values(entries@) =~= entry_values(old_entries).push(value));
                    lemma_assoc_push(entry_keys(old_entries), entry_values(old_entries), id, value);
                    assert(value == flatten(model)[id]);
                    assert forall|x: (Seq<char>, Seq<char>)|
                        #[trigger] entry_keys(entries@).contains(x) <==> (in_first_tables(
                            tnames,
                            tvals,
                            i as int,
                            x,
                        ) || (x.0 == tnames[i as int] && in_first_names(
                            cnames,
                            j as int + 1,
                            x.1,
                        ))) by {
                        if entry_keys(entries@).contains(x) {
                            let e = choose|e: int|
                                0 <= e < entry_keys(entries@).len() && entry_keys(entries@)[e] == x;
                            if e < old_entries.len() {
                                assert(entry_keys(old_entries)[e] == x);
                                assert(entry_keys(old_entries).contains(x));
                                if !in_first_tables(tnames, tvals, i as int, x) {
                                    let c = choose|c: int|
                                        0 <= c < j && #[trigger] cnames[c] == x.1;
                                    assert(0 <= c < j + 1 && cnames[c] == x.1);
                                }
                            } else {
                                assert(x == id);
                                assert(cnames[j as int] == x.1);
                            }
                        }
                        if in_first_tables(tnames, tvals, i as int, x) {
                            assert(entry_keys(old_entries).contains(x));
                            let e = choose|e: int|
                                0 <= e < entry_keys(old_entries).len() && entry_keys(
                                    old_entries,
                                )[e] == x;
                            assert(entry_keys(entries@)[e] == x);
                        }
                        if x.0 == tnames[i as int] && in_first_names(cnames, j as int + 1, x.1) {
                            let c = choose|c: int| 0 <= c < j + 1 && #[trigger] cnames[c] == x.1;
                            if c < j {
                                assert(in_first_names(cnames, j as int, x.1));
                                assert(entry_keys(old_entries).contains(x));
                                let e = choose|e: int|
                                    0 <= e < entry_keys(old_entries).len() && entry_keys(
                                        old_entries,
                                    )[e] == x;
                                assert(entry_keys(entries@)[e] == x);
                            } else {
                                assert(x == id);
                                assert(entry_keys(entries@)[old_entries.len() as int] == x);
                            }
                        }
                    }
                }
                j += 1;
            }
            proof {
                assert forall|id: (Seq<char>, Seq<char>)|
                    #[trigger] entry_keys(entries@).contains(id) <==> in_first_tables(
                        tnames,
                        tvals,
                        i as int + 1,
                        id,
                    ) by {
                    if in_first_tables(tnames, tvals, i as int, id) {
                        let t = choose|t: int|
                            0 <= t < i && #[trigger] tnames[t] == id.0 && tvals[t].contains_key(
                                id.1,
                            );
                        assert(0 <= t < i + 1);
                    }
                    if id.0 == tnames[i as int] && in_first_names(cnames, j as int, id.1) {
                        let c = choose|c: int| 0 <= c < j && #[trigger] cnames[c] == id.1;
                        lemma_assoc_at(cnames, cvals, c);
                        assert(tvals[i as int].contains_key(id.1));
                    }
                    if in_first_tables(tnames, tvals, i as int + 1, id) {
                        let t = choose|t: int|
                            0 <= t < i + 1 && #[trigger] tnames[t] == id.0
                                && tvals[t].contains_key(id.1);
                        if t == i {
                            let c = lemma_assoc_key(cnames, cvals, id.1);
                            assert(in_first_names(cnames, j as int, id.1));
                        } else {
                            assert(in_first_tables(tnames, tvals, i as int, id));
                        }
                    }
                }
            }
            i += 1;
        }
        let map = ConfigMap { entries };
        proof {
            let keys = entry_keys(map.entries@);
            let values = entry_values(map.entries@);
            assert forall|id: (Seq<char>, Seq<char>)| map@.contains_key(id) <==> flatten(
                model,
            ).contains_key(id) by {
                if in_first_tables(tnames, tvals, i as int, id) {
                    let t = choose|t: int|
                        0 <= t < i && #[trigger] tnames[t] == id.0 && tvals[t].contains_key(id.1);
                    lemma_assoc_at(tnames, tvals, t);
                }
                if flatten(model).contains_key(id) {
                    let t = lemma_assoc_key(tnames, tvals, id.0);
                    assert(in_first_tables(tnames, tvals, i as int, id));
                }
            }
            assert forall|id: (Seq<char>, Seq<char>)| map@.contains_key(id) implies map@[id]
                == flatten(model)[id] by {
                let e = lemma_assoc_key(keys, values, id);
            }
            assert(map@ =~= flatten(model));
        }
        map
    }
}

} // verus!
