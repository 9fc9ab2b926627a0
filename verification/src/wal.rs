//! Framing of raw captured messages: the log-sequence identifier, the commit
//! flag, and whether the message defines or manipulates data.

use vstd::prelude::*;
use crate::schema::now_millis;
use crate::text::{
    chars_of, contains_in, contains_text, split_tokens, text_of, texts, to_upper, tokens,
    uppercase_of,
};

verus! {

/// One captured message.
#[derive(Debug)]
pub struct WalMessage {
    /// The log-sequence identifier, `0/0` where the message holds none.
    pub lsn: String,
    /// The time of capture, in milliseconds since the Unix epoch.
    pub timestamp: i64,
    /// The message as it was captured.
    pub content: String,
    pub is_commit: bool,
}

/// The mathematical value of a [`WalMessage`].
pub struct WalModel {
    pub lsn: Seq<char>,
    pub timestamp: i64,
    pub content: Seq<char>,
    pub is_commit: bool,
}

impl View for WalMessage {
    type V = WalModel;

    open spec fn view(&self) -> WalModel {
        WalModel {
            lsn: self.lsn@,
            timestamp: self.timestamp,
            content: self.content@,
            is_commit: self.is_commit,
        }
    }
}

impl Clone for WalMessage {
    fn clone(&self) -> (r: WalMessage)
        ensures
            r@ == self@,
    {
        WalMessage {
            lsn: self.lsn.clone(),
            timestamp: self.timestamp,
            content: self.content.clone(),
            is_commit: self.is_commit,
        }
    }
}

/// Whether `c` is one of `0-9`, `a-f`, `A-F`.
pub open spec fn hex_digit(c: char) -> bool {
    ('0' <= c && c <= '9') || ('a' <= c && c <= 'f') || ('A' <= c && c <= 'F')
}

/// Whether `w` is hexadecimal digits, a slash at position `k`, and
/// hexadecimal digits again, with at least one digit on each side.
pub open spec fn is_lsn_split_at(w: Seq<char>, k: int) -> bool {
    &&& 0 < k < w.len() - 1
    &&& w[k] == '/'
    &&& forall|i: int| 0 <= i < w.len() && i != k ==> hex_digit(#[trigger] w[i])
}

/// Whether a word has the form of a log-sequence identifier, `<hex>/<hex>`:
/// one or more hexadecimal digits, one slash, one or more hexadecimal
/// digits, and nothing else.
pub open spec fn is_lsn(w: Seq<char>) -> bool {
    exists|k: int| is_lsn_split_at(w, k)
}

/// The first word among `words[i..]` that has the form of a log-sequence
/// identifier.
pub open spec fn first_lsn_from(words: Seq<Seq<char>>, i: int) -> Option<Seq<char>>
    decreases words.len() - i,
{
    if i < 0 || i >= words.len() {
        None
    } else if is_lsn(words[i]) {
        Some(words[i])
    } else {
        first_lsn_from(words, i + 1)
    }
}

/// The log-sequence identifier that a message holds: its first word that
/// has the form of one.
pub open spec fn lsn_of(message: Seq<char>) -> Option<Seq<char>> {
    first_lsn_from(tokens(message), 0)
}

/// Whether a message marks a commit: it holds `COMMIT` or `commit`.
pub open spec fn marks_commit(message: Seq<char>) -> bool {
    contains_text(message, "COMMIT"@) || contains_text(message, "commit"@)
}

/// Whether a text in upper case holds a keyword of data definition.
pub open spec fn holds_ddl(upper: Seq<char>) -> bool {
    ||| contains_text(upper, "CREATE TABLE"@)
    ||| contains_text(upper, "DROP TABLE"@)
    ||| contains_text(upper, "ALTER TABLE"@)
    ||| contains_text(upper, "CREATE INDEX"@)
    ||| contains_text(upper, "DROP INDEX"@)
    ||| contains_text(upper, "CREATE SCHEMA"@)
    ||| contains_text(upper, "DROP SCHEMA"@)
    ||| contains_text(upper, "ADD COLUMN"@)
    ||| contains_text(upper, "DROP COLUMN"@)
    ||| contains_text(upper, "ALTER COLUMN"@)
}

/// Whether a text in upper case holds a keyword of data manipulation.
pub open spec fn holds_dml(upper: Seq<char>) -> bool {
    ||| contains_text(upper, "INSERT"@)
    ||| contains_text(upper, "UPDATE"@)
    ||| contains_text(upper, "DELETE"@)
    ||| contains_text(upper, "TRUNCATE"@)
}

/// Whether a text in upper case holds the first keyword of any SQL
/// statement that is of interest.
pub open spec fn holds_sql(upper: Seq<char>) -> bool {
    ||| contains_text(upper, "CREATE"@)
    ||| contains_text(upper, "DROP"@)
    ||| contains_text(upper, "ALTER"@)
    ||| holds_dml(upper)
}

/// The framing of `message`, captured at `timestamp`.
pub open spec fn framed(message: Seq<char>, timestamp: i64) -> WalModel {
    WalModel {
        lsn: match lsn_of(message) {
            Some(l) => l,
            None => "0/0"@,
        },
        timestamp,
        content: message,
        is_commit: marks_commit(message),
    }
}

/// Whether `c` is one of `0-9`, `a-f`, `A-F`.
pub fn is_hex_digit(c: char) -> (b: bool)
    ensures
        b == hex_digit(c),
{
    ('0' <= c && c <= '9') || ('a' <= c && c <= 'f') || ('A' <= c && c <= 'F')
}

/// Whether a word has the form of a log-sequence identifier, `<hex>/<hex>`.
pub fn word_is_lsn(word: &str) -> (b: bool)
    ensures
        b == is_lsn(word@),
{
    let w = chars_of(word);
    let mut k: usize = 0;
    while k < w.len() && is_hex_digit(w[k])
        invariant
            k <= w.len(),
            forall|i: int| 0 <= i < k ==> hex_digit(#[trigger] w@[i]),
        decreases w.len() - k,
    {
        k += 1;
    }
    if k == 0 || k >= w.len() || w[k] != '/' || k + 1 >= w.len() {
        assert forall|s: int| !is_lsn_split_at(w@, s) by {
            if is_lsn_split_at(w@, s) {
                if k >= w.len() {
                    assert(hex_digit(w@[s]));
                } else if s != k {
                    assert(hex_digit(w@[k as int]));
                    assert(hex_digit(w@[s]) || s >= k);
                }
            }
        }
        return false;
    }
    let mut j: usize = k + 1;
    while j < w.len()
        invariant
            0 < k < j <= w.len(),
            k + 1 < w.len(),
            w@ == word@,
            w@[k as int] == '/',
            forall|i: int| 0 <= i < j && i != k ==> hex_digit(#[trigger] w@[i]),
        decreases w.len() - j,
    {
        if !is_hex_digit(w[j]) {
            assert forall|s: int| !is_lsn_split_at(w@, s) by {
                if is_lsn_split_at(w@, s) {
                    if s != k {
                        assert(hex_digit(w@[k as int]));
                    } else {
                        assert(hex_digit(w@[j as int]));
                    }
                }
            }
            return false;
        }
        j += 1;
    }
    assert(is_lsn_split_at(w@, k as int));
    true
}

/// Frames raw captured messages.
pub struct WalMessageParser;

impl WalMessageParser {
    /// Frames a message captured now. Never `None`.
    pub fn parse(message: &str) -> (r: Option<WalMessage>)
        ensures
            r matches Some(m) && m@ == framed(message@, m.timestamp),
    {
        let timestamp = now_millis();
        WalMessageParser::parse_at(message, timestamp)
    }

    /// Frames a message captured at `timestamp`. Never `None`.
    pub fn parse_at(message: &str, timestamp: i64) -> (r: Option<WalMessage>)
        ensures
            r matches Some(m) && m@ == framed(message@, timestamp),
    {
        let lsn = match WalMessageParser::extract_lsn(message) {
            Some(l) => l,
            None => "0/0".to_owned(),
        };
        let m = chars_of(message);
        let is_commit = contains_in(&m, &chars_of("COMMIT")) || contains_in(&m, &chars_of("commit"));
        Some(WalMessage { lsn, timestamp, content: message.to_owned(), is_commit })
    }

    /// The log-sequence identifier that a message holds: its first word
    /// with the form `<hex>/<hex>`.
    pub fn extract_lsn(message: &str) -> (r: Option<String>)
        ensures
            text_of(r) == lsn_of(message@),
    {
        let mut words = split_tokens(&chars_of(message));
        let mut i: usize = 0;
        while i < words.len()
            invariant
                i <= words.len(),
                texts(words@) == tokens(message@),
                lsn_of(message@) == first_lsn_from(texts(words@), i as int),
            decreases words.len() - i,
        {
            assert(texts(words@)[i as int] == words@[i as int]@);
            if word_is_lsn(words[i].as_str()) {
                return Some(words[i].clone());
            }
            i += 1;
        }
        None
    }

    /// Whether a text in upper case holds the first keyword of any SQL
    /// statement that is of interest.
    pub fn has_sql_keyword(upper: &str) -> (b: bool)
        ensures
            b == holds_sql(upper@),
    {
        let u = chars_of(upper);
        contains_in(&u, &chars_of("CREATE")) || contains_in(&u, &chars_of("DROP")) || contains_in(
            &u,
            &chars_of("ALTER"),
        ) || WalMessageParser::has_dml_keyword(upper)
    }

    /// Whether a text in upper case holds a keyword of data definition.
    pub fn has_ddl_keyword(upper: &str) -> (b: bool)
        ensures
            b == holds_ddl(upper@),
    {
        let u = chars_of(upper);
        contains_in(&u, &chars_of("CREATE TABLE")) || contains_in(&u, &chars_of("DROP TABLE"))
            || contains_in(&u, &chars_of("ALTER TABLE")) || contains_in(&u, &chars_of("CREATE INDEX"))
            || contains_in(&u, &chars_of("DROP INDEX")) || contains_in(&u, &chars_of("CREATE SCHEMA"))
            || contains_in(&u, &chars_of("DROP SCHEMA")) || contains_in(&u, &chars_of("ADD COLUMN"))
            || contains_in(&u, &chars_of("DROP COLUMN")) || contains_in(&u, &chars_of("ALTER COLUMN"))
    }

    /// Whether a text in upper case holds a keyword of data manipulation.
    pub fn has_dml_keyword(upper: &str) -> (b: bool)
        ensures
            b == holds_dml(upper@),
    {
        let u = chars_of(upper);
        contains_in(&u, &chars_of("INSERT")) || contains_in(&u, &chars_of("UPDATE")) || contains_in(
            &u,
            &chars_of("DELETE"),
        ) || contains_in(&u, &chars_of("TRUNCATE"))
    }

    /// The message itself where it holds, in any case, the first keyword of
    /// an SQL statement; none where it holds no such keyword.
    pub fn extract_sql(message: &str) -> (r: Option<String>)
        ensures
            text_of(r) == if holds_sql(uppercase_of(message@)) {
                Some(message@)
            } else {
                None
            },
    {
        let upper = to_upper(message);
        if WalMessageParser::has_sql_keyword(upper.as_str()) {
            Some(message.to_owned())
        } else {
            None
        }
    }

    /// Whether a message holds, in any case, a keyword of data definition.
    pub fn is_ddl(message: &str) -> (b: bool)
        ensures
            b == holds_ddl(uppercase_of(message@)),
    {
        let upper = to_upper(message);
        WalMessageParser::has_ddl_keyword(upper.as_str())
    }

    /// Whether a message holds, in any case, a keyword of data
    /// manipulation.
    pub fn is_dml(message: &str) -> (b: bool)
        ensures
            b == holds_dml(uppercase_of(message@)),
    {
        let upper = to_upper(message);
        WalMessageParser::has_dml_keyword(upper.as_str())
    }
}

} // verus!
