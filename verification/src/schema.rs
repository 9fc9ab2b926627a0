//! The change record that every stage shares, and the classifier that turns
//! one SQL statement into a kind of change and the name of its object.

use vstd::prelude::*;
use crate::metadata::Metadata;
use crate::text::{
    chars_of, contains_in, contains_text, has_prefix, same_text, split_tokens, starts_with_in,
    string_of, stripped_bounds, texts, to_upper, tokens, trimmed, unquoted, uppercase_of, CharClass,
};

verus! {

/// The kind of a schema change.
#[derive(Debug, PartialEq)]
pub enum ChangeType {
    CreateTable,
    DropTable,
    AlterTable,
    AddColumn,
    DropColumn,
    ModifyColumn,
    AddConstraint,
    DropConstraint,
    CreateIndex,
    DropIndex,
    /// An unrecognised statement, with its first word in upper case.
    Other(String),
}

/// The mathematical value of a [`ChangeType`].
pub enum Kind {
    CreateTable,
    DropTable,
    AlterTable,
    AddColumn,
    DropColumn,
    ModifyColumn,
    AddConstraint,
    DropConstraint,
    CreateIndex,
    DropIndex,
    Other(Seq<char>),
}

impl View for ChangeType {
    type V = Kind;

    open spec fn view(&self) -> Kind {
        match self {
            ChangeType::CreateTable => Kind::CreateTable,
            ChangeType::DropTable => Kind::DropTable,
            ChangeType::AlterTable => Kind::AlterTable,
            ChangeType::AddColumn => Kind::AddColumn,
            ChangeType::DropColumn => Kind::DropColumn,
            ChangeType::ModifyColumn => Kind::ModifyColumn,
            ChangeType::AddConstraint => Kind::AddConstraint,
            ChangeType::DropConstraint => Kind::DropConstraint,
            ChangeType::CreateIndex => Kind::CreateIndex,
            ChangeType::DropIndex => Kind::DropIndex,
            ChangeType::Other(tag) => Kind::Other(tag@),
        }
    }
}

impl Clone for ChangeType {
    fn clone(&self) -> (r: ChangeType)
        ensures
            r@ == self@,
    {
        match self {
            ChangeType::CreateTable => ChangeType::CreateTable,
            ChangeType::DropTable => ChangeType::DropTable,
            ChangeType::AlterTable => ChangeType::AlterTable,
            ChangeType::AddColumn => ChangeType::AddColumn,
            ChangeType::DropColumn => ChangeType::DropColumn,
            ChangeType::ModifyColumn => ChangeType::ModifyColumn,
            ChangeType::AddConstraint => ChangeType::AddConstraint,
            ChangeType::DropConstraint => ChangeType::DropConstraint,
            ChangeType::CreateIndex => ChangeType::CreateIndex,
            ChangeType::DropIndex => ChangeType::DropIndex,
            ChangeType::Other(tag) => ChangeType::Other(tag.clone()),
        }
    }
}

/// A column of a table, as a capture layer that knows the structure
/// describes it.
#[derive(Debug)]
pub struct ColumnInfo {
    pub name: String,
    pub data_type: String,
    pub nullable: bool,
    pub default: Option<String>,
    pub constraints: Vec<String>,
}

/// The mathematical value of a [`ColumnInfo`].
pub struct ColumnModel {
    pub name: Seq<char>,
    pub data_type: Seq<char>,
    pub nullable: bool,
    pub default: Option<Seq<char>>,
    pub constraints: Seq<Seq<char>>,
}

impl View for ColumnInfo {
    type V = ColumnModel;

    open spec fn view(&self) -> ColumnModel {
        ColumnModel {
            name: self.name@,
            data_type: self.data_type@,
            nullable: self.nullable,
            default: match self.default {
                Some(d) => Some(d@),
                None => None,
            },
            constraints: texts(self.constraints@),
        }
    }
}

impl Clone for ColumnInfo {
    fn clone(&self) -> (r: ColumnInfo)
        ensures
            r@ == self@,
    {
        let constraints = self.constraints.clone();
        assert(texts(constraints@) =~= texts(self.constraints@));
        ColumnInfo {
            name: self.name.clone(),
            data_type: self.data_type.clone(),
            nullable: self.nullable,
            default: self.default.clone(),
            constraints,
        }
    }
}

/// A constraint of a table.
#[derive(Debug)]
pub struct ConstraintInfo {
    pub name: String,
    pub constraint_type: String,
    pub definition: String,
}

/// The mathematical value of a [`ConstraintInfo`].
pub struct ConstraintModel {
    pub name: Seq<char>,
    pub constraint_type: Seq<char>,
    pub definition: Seq<char>,
}

impl View for ConstraintInfo {
    type V = ConstraintModel;

    open spec fn view(&self) -> ConstraintModel {
        ConstraintModel {
            name: self.name@,
            constraint_type: self.constraint_type@,
            definition: self.definition@,
        }
    }
}

impl Clone for ConstraintInfo {
    fn clone(&self) -> (r: ConstraintInfo)
        ensures
            r@ == self@,
    {
        ConstraintInfo {
            name: self.name.clone(),
            constraint_type: self.constraint_type.clone(),
            definition: self.definition.clone(),
        }
    }
}

/// The values of a list of columns.
pub open spec fn column_models(v: Seq<ColumnInfo>) -> Seq<ColumnModel> {
    v.map_values(|c: ColumnInfo| c@)
}

/// The values of a list of constraints.
pub open spec fn constraint_models(v: Seq<ConstraintInfo>) -> Seq<ConstraintModel> {
    v.map_values(|c: ConstraintInfo| c@)
}

/// What is known of a change beyond its kind and object.
#[derive(Debug)]
pub struct ChangeDetails {
    /// The statement that triggered the change, verbatim; for a merged
    /// record, the combined statement.
    pub sql: String,
    pub columns: Option<Vec<ColumnInfo>>,
    pub constraints: Option<Vec<ConstraintInfo>>,
    pub metadata: Metadata,
}

/// The mathematical value of a [`ChangeDetails`].
pub struct DetailsModel {
    pub sql: Seq<char>,
    pub columns: Option<Seq<ColumnModel>>,
    pub constraints: Option<Seq<ConstraintModel>>,
    pub metadata: Seq<(Seq<char>, Seq<char>)>,
}

impl View for ChangeDetails {
    type V = DetailsModel;

    open spec fn view(&self) -> DetailsModel {
        DetailsModel {
            sql: self.sql@,
            columns: match self.columns {
                Some(c) => Some(column_models(c@)),
                None => None,
            },
            constraints: match self.constraints {
                Some(c) => Some(constraint_models(c@)),
                None => None,
            },
            metadata: self.metadata@,
        }
    }
}

impl Clone for ChangeDetails {
    fn clone(&self) -> (r: ChangeDetails)
        ensures
            r@ == self@,
    {
        let columns = match &self.columns {
            Some(c) => {
                let d = c.clone();
                assert(column_models(d@) =~= column_models(c@));
                Some(d)
            },
            None => None,
        };
        let constraints = match &self.constraints {
            Some(c) => {
                let d = c.clone();
                assert(constraint_models(d@) =~= constraint_models(c@));
                Some(d)
            },
            None => None,
        };
        ChangeDetails { sql: self.sql.clone(), columns, constraints, metadata: self.metadata.clone() }
    }
}

/// One detected schema event.
#[derive(Debug)]
pub struct SchemaChange {
    pub change_type: ChangeType,
    pub schema_name: String,
    /// The table or index that the event concerns; empty where no name could
    /// be extracted.
    pub object_name: String,
    pub details: ChangeDetails,
    /// The time of capture, in milliseconds since the Unix epoch.
    pub timestamp: i64,
}

/// The mathematical value of a [`SchemaChange`].
pub struct ChangeModel {
    pub kind: Kind,
    pub schema_name: Seq<char>,
    pub object_name: Seq<char>,
    pub details: DetailsModel,
    pub timestamp: i64,
}

impl View for SchemaChange {
    type V = ChangeModel;

    open spec fn view(&self) -> ChangeModel {
        ChangeModel {
            kind: self.change_type@,
            schema_name: self.schema_name@,
            object_name: self.object_name@,
            details: self.details@,
            timestamp: self.timestamp,
        }
    }
}

impl Clone for SchemaChange {
    fn clone(&self) -> (r: SchemaChange)
        ensures
            r@ == self@,
    {
        SchemaChange {
            change_type: self.change_type.clone(),
            schema_name: self.schema_name.clone(),
            object_name: self.object_name.clone(),
            details: self.details.clone(),
            timestamp: self.timestamp,
        }
    }
}

/// The values of a list of change records.
pub open spec fn change_models(v: Seq<SchemaChange>) -> Seq<ChangeModel> {
    v.map_values(|c: SchemaChange| c@)
}

/// The record of a change of kind `kind` on `object_name` in `schema_name`,
/// triggered by `sql` at `timestamp`, with nothing else known.
pub open spec fn plain_change(
    kind: Kind,
    schema_name: Seq<char>,
    object_name: Seq<char>,
    sql: Seq<char>,
    timestamp: i64,
) -> ChangeModel {
    ChangeModel {
        kind,
        schema_name,
        object_name,
        details: DetailsModel { sql, columns: None, constraints: None, metadata: Seq::empty() },
        timestamp,
    }
}

/// Reads the clock.
///
/// Trusted: `SystemTime::now` of std, chrono's conversion of a `SystemTime`
/// into a `DateTime<Utc>`, which takes a time before the epoch as well as
/// one after it, and `DateTime::timestamp_millis`, which gives the number of
/// milliseconds since the Unix epoch. Nothing is claimed of the value: it
/// differs from call to call.
#[verifier::external_body]
pub(crate) fn now_millis() -> (t: i64) {
    chrono::DateTime::<chrono::Utc>::from(std::time::SystemTime::now()).timestamp_millis()
}

impl SchemaChange {
    /// A record captured now, with nothing known beyond the statement.
    pub fn new(change_type: ChangeType, schema_name: String, object_name: String, sql: String) -> (r:
        SchemaChange)
        ensures
            r@ == plain_change(change_type@, schema_name@, object_name@, sql@, r.timestamp),
    {
        let timestamp = now_millis();
        SchemaChange::at(change_type, schema_name, object_name, sql, timestamp)
    }

    /// A record captured at `timestamp`, with nothing known beyond the
    /// statement.
    pub fn at(
        change_type: ChangeType,
        schema_name: String,
        object_name: String,
        sql: String,
        timestamp: i64,
    ) -> (r: SchemaChange)
        ensures
            r@ == plain_change(change_type@, schema_name@, object_name@, sql@, timestamp),
    {
        SchemaChange {
            change_type,
            schema_name,
            object_name,
            details: ChangeDetails { sql, columns: None, constraints: None, metadata: Metadata::new() },
            timestamp,
        }
    }

    /// The same record with `columns` attached.
    pub fn with_columns(self, columns: Vec<ColumnInfo>) -> (r: SchemaChange)
        ensures
            r@ == (ChangeModel {
                details: DetailsModel { columns: Some(column_models(columns@)), ..self@.details },
                ..self@
            }),
            r.details.metadata == self.details.metadata,
    {
        let mut r = self;
        r.details.columns = Some(columns);
        r
    }

    /// The same record with `constraints` attached.
    pub fn with_constraints(self, constraints: Vec<ConstraintInfo>) -> (r: SchemaChange)
        ensures
            r@ == (ChangeModel {
                details: DetailsModel {
                    constraints: Some(constraint_models(constraints@)),
                    ..self@.details
                },
                ..self@
            }),
            r.details.metadata == self.details.metadata,
    {
        let mut r = self;
        r.details.constraints = Some(constraints);
        r
    }

    /// The same record with `value` stored under `key` in its metadata.
    pub fn with_metadata(self, key: String, value: String) -> (r: SchemaChange)
        ensures
            r@ == (ChangeModel {
                details: DetailsModel {
                    metadata: crate::metadata::stored(self@.details.metadata, key@, value@),
                    ..self@.details
                },
                ..self@
            }),
    {
        let mut r = self;
        r.details.metadata.insert(key, value);
        r
    }
}

/// The first word of `upper`, or `UNKNOWN` where it has none.
pub open spec fn leading_word(upper: Seq<char>) -> Seq<char> {
    if tokens(upper).len() > 0 {
        tokens(upper)[0]
    } else {
        "UNKNOWN"@
    }
}

/// The kind of change that an `ALTER TABLE` statement makes, given the
/// statement in upper case.
pub open spec fn alter_kind(upper: Seq<char>) -> Kind {
    if contains_text(upper, "ADD COLUMN"@) {
        Kind::AddColumn
    } else if contains_text(upper, "DROP COLUMN"@) {
        Kind::DropColumn
    } else if contains_text(upper, "ALTER COLUMN"@) {
        Kind::ModifyColumn
    } else if contains_text(upper, "ADD CONSTRAINT"@) {
        Kind::AddConstraint
    } else if contains_text(upper, "DROP CONSTRAINT"@) {
        Kind::DropConstraint
    } else {
        Kind::AlterTable
    }
}

/// The kind of change that a statement makes, given the statement trimmed
/// and in upper case.
pub open spec fn kind_of(upper: Seq<char>) -> Kind {
    if has_prefix(upper, "CREATE TABLE"@) {
        Kind::CreateTable
    } else if has_prefix(upper, "DROP TABLE"@) {
        Kind::DropTable
    } else if has_prefix(upper, "ALTER TABLE"@) {
        alter_kind(upper)
    } else if has_prefix(upper, "CREATE INDEX"@) {
        Kind::CreateIndex
    } else if has_prefix(upper, "DROP INDEX"@) {
        Kind::DropIndex
    } else {
        Kind::Other(leading_word(upper))
    }
}

/// The word that follows the first word among `words[i..]` whose upper-case
/// form `uppers[..]` is `keyword`, without surrounding quotes; empty where no
/// word follows such a keyword.
pub open spec fn word_after_from(
    words: Seq<Seq<char>>,
    uppers: Seq<Seq<char>>,
    keyword: Seq<char>,
    i: int,
) -> Seq<char>
    decreases words.len() - i,
{
    if i < 0 || i + 1 >= words.len() || i >= uppers.len() {
        Seq::empty()
    } else if uppers[i] == keyword {
        unquoted(words[i + 1])
    } else {
        word_after_from(words, uppers, keyword, i + 1)
    }
}

/// The upper-case forms of a list of words.
pub open spec fn uppercased(words: Seq<Seq<char>>) -> Seq<Seq<char>> {
    words.map_values(|w: Seq<char>| uppercase_of(w))
}

/// The name that follows the keyword `keyword` in the statement `sql`.
pub open spec fn name_after(sql: Seq<char>, keyword: Seq<char>) -> Seq<char> {
    word_after_from(tokens(sql), uppercased(tokens(sql)), keyword, 0)
}

/// The name of the object that a statement of kind `kind` concerns.
pub open spec fn object_of(sql: Seq<char>, kind: Kind) -> Seq<char> {
    match kind {
        Kind::CreateIndex | Kind::DropIndex => name_after(sql, "INDEX"@),
        Kind::Other(_) => Seq::empty(),
        _ => name_after(sql, "TABLE"@),
    }
}

/// `s` without the double quotes and backticks at its two ends.
pub fn trim_quotes(s: &str) -> (r: String)
    ensures
        r@ == unquoted(s@),
{
    let v = chars_of(s);
    let (b, e) = stripped_bounds(&v, CharClass::Quote);
    string_of(&v, b, e)
}

/// `s` without the white space at its two ends.
pub fn trim_text(s: &str) -> (r: String)
    ensures
        r@ == trimmed(s@),
{
    let v = chars_of(s);
    let (b, e) = stripped_bounds(&v, CharClass::Whitespace);
    string_of(&v, b, e)
}

/// The upper-case form of each word.
pub fn uppercase_words(words: &Vec<String>) -> (r: Vec<String>)
    ensures
        texts(r@) == uppercased(texts(words@)),
{
    let mut r: Vec<String> = Vec::new();
    let mut i: usize = 0;
    while i < words.len()
        invariant
            i <= words.len(),
            r.len() == i,
            forall|j: int| 0 <= j < i ==> r@[j]@ == uppercase_of(words@[j]@),
        decreases words.len() - i,
    {
        r.push(to_upper(words[i].as_str()));
        i += 1;
    }
    assert(texts(r@) =~= uppercased(texts(words@)));
    r
}

/// The word that follows the first of `words` whose upper-case form, given
/// in `uppers`, is `keyword`; quotes around it are removed. Empty where no
/// word follows such a keyword.
pub fn word_after(words: &Vec<String>, uppers: &Vec<String>, keyword: &str) -> (r: String)
    requires
        uppers.len() == words.len(),
    ensures
        r@ == word_after_from(texts(words@), texts(uppers@), keyword@, 0),
{
    let mut i: usize = 0;
    while i < words.len()
        invariant
            i <= words.len(),
            uppers.len() == words.len(),
            word_after_from(texts(words@), texts(uppers@), keyword@, 0) == word_after_from(
                texts(words@),
                texts(uppers@),
                keyword@,
                i as int,
            ),
        decreases words.len() - i,
    {
        if i + 1 < words.len() && same_text(uppers[i].as_str(), keyword) {
            return trim_quotes(words[i + 1].as_str());
        }
        i += 1;
    }
    String::new()
}

/// The name that follows the keyword `keyword` in the statement `sql`.
pub fn extract_name_after(sql: &str, keyword: &str) -> (r: String)
    ensures
        r@ == name_after(sql@, keyword@),
{
    let v = chars_of(sql);
    let words = split_tokens(&v);
    let uppers = uppercase_words(&words);
    assert(texts(uppers@).len() == texts(words@).len());
    word_after(&words, &uppers, keyword)
}

/// The name of the table that the statement `sql` concerns: the word after
/// the first `TABLE`, in any case, without surrounding quotes.
pub fn extract_table_name(sql: &str) -> (r: String)
    ensures
        r@ == name_after(sql@, "TABLE"@),
{
    extract_name_after(sql, "TABLE")
}

/// The name of the index that the statement `sql` concerns: the word after
/// the first `INDEX`, in any case, without surrounding quotes.
pub fn extract_index_name(sql: &str) -> (r: String)
    ensures
        r@ == name_after(sql@, "INDEX"@),
{
    extract_name_after(sql, "INDEX")
}

/// Classifies SQL statements.
pub struct SchemaChangeParser;

impl SchemaChangeParser {
    /// The kind of change that a statement makes, given the statement
    /// trimmed and in upper case.
    pub fn classify(upper: &str) -> (r: ChangeType)
        ensures
            r@ == kind_of(upper@),
    {
        let up = chars_of(upper);
        if starts_with_in(&up, &chars_of("CREATE TABLE")) {
            ChangeType::CreateTable
        } else if starts_with_in(&up, &chars_of("DROP TABLE")) {
            ChangeType::DropTable
        } else if starts_with_in(&up, &chars_of("ALTER TABLE")) {
            if contains_in(&up, &chars_of("ADD COLUMN")) {
                ChangeType::AddColumn
            } else if contains_in(&up, &chars_of("DROP COLUMN")) {
                ChangeType::DropColumn
            } else if contains_in(&up, &chars_of("ALTER COLUMN")) {
                ChangeType::ModifyColumn
            } else if contains_in(&up, &chars_of("ADD CONSTRAINT")) {
                ChangeType::AddConstraint
            } else if contains_in(&up, &chars_of("DROP CONSTRAINT")) {
                ChangeType::DropConstraint
            } else {
                ChangeType::AlterTable
            }
        } else if starts_with_in(&up, &chars_of("CREATE INDEX")) {
            ChangeType::CreateIndex
        } else if starts_with_in(&up, &chars_of("DROP INDEX")) {
            ChangeType::DropIndex
        } else {
            let mut words = split_tokens(&up);
            if words.len() > 0 {
                assert(texts(words@)[0] == words@[0]@);
                ChangeType::Other(words.swap_remove(0))
            } else {
                assert(texts(words@).len() == 0);
                ChangeType::Other("UNKNOWN".to_owned())
            }
        }
    }

    /// The name of the object that a statement of the given kind concerns.
    pub fn object_name(sql: &str, kind: &ChangeType) -> (r: String)
        ensures
            r@ == object_of(sql@, kind@),
    {
        match kind {
            ChangeType::CreateIndex | ChangeType::DropIndex => extract_index_name(sql),
            ChangeType::Other(_) => String::new(),
            _ => extract_table_name(sql),
        }
    }

    /// Classifies one SQL statement: the kind of change it makes and the
    /// name of the object it concerns. The kind is decided on the statement
    /// trimmed and in upper case; a statement that matches no known form is
    /// `Other`, with an empty name. Never `None`.
    pub fn parse(sql: &str) -> (r: Option<(ChangeType, String)>)
        ensures
            r matches Some(p) && p.0@ == kind_of(uppercase_of(trimmed(sql@))) && p.1@ == object_of(
                sql@,
                p.0@,
            ),
    {
        let trimmed = trim_text(sql);
        let upper = to_upper(trimmed.as_str());
        let kind = SchemaChangeParser::classify(upper.as_str());
        let name = SchemaChangeParser::object_name(sql, &kind);
        Some((kind, name))
    }
}

} // verus!
