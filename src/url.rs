use vstd::prelude::*;
use vstd::string::StringExecFns;
use crate::field::{TypeOptionData, OptionEntry};
use crate::keyed::{keyed_insert, value_of};

verus! {

#[verifier::external_type_specification]
#[verifier::external_body]
pub struct ExJsonError(serde_json::Error);

/// The lower-case hexadecimal digit of `n`, for `n` below 16.
pub open spec fn hex_digit(n: u32) -> char {
    if n == 0 { '0' } else if n == 1 { '1' } else if n == 2 { '2' } else if n == 3 { '3' }
    else if n == 4 { '4' } else if n == 5 { '5' } else if n == 6 { '6' } else if n == 7 { '7' }
    else if n == 8 { '8' } else if n == 9 { '9' } else if n == 10 { 'a' } else if n == 11 { 'b' }
    else if n == 12 { 'c' } else if n == 13 { 'd' } else if n == 14 { 'e' } else { 'f' }
}

/// How one character stands inside a JSON string: quote and backslash are
/// escaped, control characters take their short escape or `\u00xx`, every
/// other character stays as it is.
pub open spec fn json_char(c: char) -> Seq<char> {
    if c == '"' {
        seq!['\\', '"']
    } else if c == '\\' {
        seq!['\\', '\\']
    } else if c == '\u{8}' {
        seq!['\\', 'b']
    } else if c == '\t' {
        seq!['\\', 't']
    } else if c == '\n' {
        seq!['\\', 'n']
    } else if c == '\u{c}' {
        seq!['\\', 'f']
    } else if c == '\r' {
        seq!['\\', 'r']
    } else if (c as u32) < 0x20 {
        seq!['\\', 'u', '0', '0', hex_digit((c as u32) / 16), hex_digit((c as u32) % 16)]
    } else {
        seq![c]
    }
}

/// The characters of `s`, each as it stands inside a JSON string.
pub open spec fn json_chars(s: Seq<char>) -> Seq<char>
    decreases s.len(),
{
    if s.len() == 0 {
        Seq::empty()
    } else {
        json_chars(s.drop_last()) + json_char(s.last())
    }
}

/// The JSON string literal of a text: its escaped characters between quotes.
pub open spec fn json_text_of(s: Seq<char>) -> Seq<char> {
    seq!['"'] + json_chars(s) + seq!['"']
}

/// Relies on serde_json::to_string on a `str`: the text between quotes, with
/// the escapes of its string serializer. Writing a `str` into an in-memory
/// buffer does not fail.
#[verifier::external_body]
fn json_text(s: &str) -> (r: Result<String, serde_json::Error>)
    ensures
        r is Ok,
        r->Ok_0@ == json_text_of(s@),
{
    serde_json::to_string(s)
}

/// Errors of the database layer.
pub enum DatabaseError {
    /// A value could not be encoded.
    Internal,
}

/// The kind number of URL fields.
pub const URL_FIELD_TYPE: i64 = 6;

/// The options of a URL field.
pub struct URLTypeOption {
    pub url: String,
    pub content: String,
}

pub open spec fn text_or_empty(o: Option<Seq<char>>) -> Seq<char> {
    match o {
        Some(t) => t,
        None => Seq::empty(),
    }
}

impl URLTypeOption {
    /// A URL cell shows its text as it is.
    pub fn stringify_text(&self, text: &str) -> (r: String)
        ensures
            r@ == text@,
    {
        text.to_owned()
    }

    /// Reads the options from their stored data; a missing key reads as empty.
    pub fn from_type_option_data(data: &TypeOptionData) -> (r: Self)
        ensures
            r.url@ == text_or_empty(value_of(data@, "url"@)),
            r.content@ == text_or_empty(value_of(data@, "content"@)),
    {
        let url = match data.get("url") {
            Some(u) => u,
            None => String::new(),
        };
        let content = match data.get("content") {
            Some(c) => c,
            None => String::new(),
        };
        URLTypeOption { url, content }
    }

    /// The stored data of the options: their url and their content.
    pub fn to_type_option_data(self) -> (r: TypeOptionData)
        ensures
            r@ == keyed_insert(keyed_insert(Seq::<OptionEntry>::empty(), ("url"@, self.url@)), ("content"@, self.content@)),
    {
        let mut data = TypeOptionData::new();
        data.insert("url".to_owned(), self.url);
        data.insert("content".to_owned(), self.content);
        data
    }
}

/// A cell of a row: the kind of its field and its keyed values.
pub struct Cell {
    pub field_type: i64,
    pub values: TypeOptionData,
}

/// The text of a URL cell.
pub struct URLCellData {
    pub data: String,
}

/// The JSON object that a URL cell encodes to.
pub open spec fn url_cell_json(data: Seq<char>) -> Seq<char> {
    "{\"data\":"@ + json_text_of(data) + "}"@
}

impl URLCellData {
    pub fn new(s: &str) -> (r: Self)
        ensures
            r.data@ == s@,
    {
        URLCellData { data: s.to_owned() }
    }

    pub fn as_str(&self) -> (r: &str)
        ensures
            r@ == self.data@,
    {
        self.data.as_str()
    }

    /// The cell as a JSON object with one key, `data`.
    pub fn to_json(&self) -> (r: Result<String, DatabaseError>)
        ensures
            r matches Ok(j) && j@ == url_cell_json(self.data@),
    {
        match json_text(self.data.as_str()) {
            Ok(quoted) => {
                let mut out = "{\"data\":".to_owned();
                out.append(quoted.as_str());
                out.append("}");
                Ok(out)
            },
            Err(_) => Err(DatabaseError::Internal),
        }
    }

    /// The JSON text of the cell.
    pub fn to_string(&self) -> (r: String)
        ensures
            r@ == url_cell_json(self.data@),
    {
        match self.to_json() {
            Ok(j) => j,
            Err(_) => String::new(),
        }
    }

    /// Reads the cell's text; a cell without one reads as empty.
    pub fn from_cell(cell: &Cell) -> (r: Self)
        ensures
            r.data@ == text_or_empty(value_of(cell.values@, "data"@)),
    {
        let data = match cell.values.get("data") {
            Some(d) => d,
            None => String::new(),
        };
        URLCellData { data }
    }

    /// A URL cell that holds the text under `data`.
    pub fn into_cell(self) -> (r: Cell)
        ensures
            r.field_type == URL_FIELD_TYPE,
            r.values@ == keyed_insert(Seq::<OptionEntry>::empty(), ("data"@, self.data@)),
    {
        let mut values = TypeOptionData::new();
        values.insert("data".to_owned(), self.data);
        Cell { field_type: URL_FIELD_TYPE, values }
    }
}

} // verus!
