//! What a failed request is answered: the message of each error, the HTTP
//! status, and the fields of the JSON body (the date of the answer is
//! added by the server when it sends it).

use vstd::prelude::*;
use crate::datasources::views;
use crate::query::{ParsingError, ParsingErrorView};
use crate::search::{append_str, HttpError};
use crate::text::push_char;

verus! {

/// The message of a search that could not be read.
pub open spec fn parsing_message(e: ParsingErrorView) -> Seq<char> {
    match e {
        ParsingErrorView::MissingQuery => "Search doesn't have 'query' key."@,
        ParsingErrorView::EmptyInput => "Search is empty."@,
        ParsingErrorView::MissingValue(c) => "No value after '"@ + seq![c] + "'"@,
        ParsingErrorView::MissingKey(c) => "No value before '"@ + seq![c] + "'"@,
        ParsingErrorView::InvalidToken(t) => "Invalid token: '"@ + t + "'"@,
    }
}

impl ParsingError {
    /// The message that explains the error.
    pub fn message(&self) -> (r: String)
        ensures
            r@ == parsing_message(self@),
    {
        let mut r = String::new();
        match self {
            ParsingError::MissingQuery => append_str(&mut r, "Search doesn't have 'query' key."),
            ParsingError::EmptyInput => append_str(&mut r, "Search is empty."),
            ParsingError::MissingValue(c) => {
                append_str(&mut r, "No value after '");
                push_char(&mut r, *c);
                append_str(&mut r, "'");
            },
            ParsingError::MissingKey(c) => {
                append_str(&mut r, "No value before '");
                push_char(&mut r, *c);
                append_str(&mut r, "'");
            },
            ParsingError::InvalidToken(t) => {
                append_str(&mut r, "Invalid token: '");
                append_str(&mut r, t.as_str());
                append_str(&mut r, "'");
            },
        }
        r
    }
}

/// The message of an error answered to a request.
pub open spec fn http_error_message(e: HttpError) -> Seq<char> {
    "HttpError: "@ + match e {
        HttpError::AuthError { msg, err } => msg@ + err@,
        HttpError::MissingDocument { msg } => msg@,
        HttpError::Internal { err } => err@,
        HttpError::BadRequest { message, .. } => message@,
        HttpError::Parsing(p) => parsing_message(p@),
    }
}

/// A value of the JSON body of an answer: a text or a list of texts.
#[derive(Debug, Clone)]
pub enum BodyValue {
    Text(String),
    List(Vec<String>),
}

/// The value of a [`BodyValue`].
pub enum BodyValueView {
    Text(Seq<char>),
    List(Seq<Seq<char>>),
}

impl View for BodyValue {
    type V = BodyValueView;

    open spec fn view(&self) -> BodyValueView {
        match self {
            BodyValue::Text(s) => BodyValueView::Text(s@),
            BodyValue::List(l) => BodyValueView::List(views(l@)),
        }
    }
}

/// The fields of a body, as values.
pub open spec fn field_views(fs: Seq<(String, BodyValue)>) -> Seq<(Seq<char>, BodyValueView)> {
    fs.map_values(|f: (String, BodyValue)| (f.0@, f.1@))
}

/// A text field.
pub open spec fn text_field(k: Seq<char>, v: Seq<char>) -> (Seq<char>, BodyValueView) {
    (k, BodyValueView::Text(v))
}

/// The HTTP status of an error: 500 for an internal error, 400 otherwise.
pub open spec fn spec_status(e: HttpError) -> u16 {
    match e {
        HttpError::Internal { .. } => 500,
        _ => 400,
    }
}

/// The fields of the body that answers an error, without the date.
pub open spec fn spec_body(e: HttpError) -> Seq<(Seq<char>, BodyValueView)> {
    match e {
        HttpError::MissingDocument { msg } => seq![text_field("msg"@, msg@)],
        HttpError::AuthError { msg, err } => seq![text_field("msg"@, msg@), text_field("err"@, err@)],
        HttpError::Internal { err } => seq![text_field("err"@, err@)],
        HttpError::BadRequest { message, valid_fields, invalid_fields } => seq![
            text_field("err"@, message@),
            text_field("type"@, "invalid_fields"@),
            ("valid_fields"@, BodyValueView::List(views(valid_fields@))),
            ("invalid_fields"@, BodyValueView::List(views(invalid_fields@))),
        ],
        HttpError::Parsing(p) => match p@ {
            ParsingErrorView::InvalidToken(_) => seq![
                text_field("err"@, parsing_message(p@)),
                text_field("type"@, "invalid_token"@),
            ],
            ParsingErrorView::MissingValue(c) => seq![
                text_field("err"@, parsing_message(p@)),
                text_field("type"@, "parsing_error"@),
                text_field("token"@, seq![c]),
            ],
            ParsingErrorView::MissingKey(c) => seq![
                text_field("err"@, parsing_message(p@)),
                text_field("type"@, "parsing_error"@),
                text_field("token"@, seq![c]),
            ],
            _ => seq![text_field("err"@, parsing_message(p@)), text_field("type"@, "parsing_error"@)],
        },
    }
}

/// A copy of a list of strings.
fn copy_strings(v: &Vec<String>) -> (r: Vec<String>)
    ensures
        views(r@) == views(v@),
{
    let mut r: Vec<String> = Vec::new();
    let mut i: usize = 0;
    while i < v.len()
        invariant
            i <= v@.len(),
            views(r@) =~= views(v@.take(i as int)),
        decreases v@.len() - i,
    {
        r.push(String::from_str(v[i].as_str()));
        assert(views(v@.take(i + 1)) =~= views(v@.take(i as int)).push(v@[i as int]@));
        i = i + 1;
    }
    assert(v@.take(v@.len() as int) =~= v@);
    r
}

/// A text field of a body.
fn field(key: &str, value: String) -> (f: (String, BodyValue))
    ensures
        f.0@ == key@,
        f.1@ == BodyValueView::Text(value@),
{
    (String::from_str(key), BodyValue::Text(value))
}

impl HttpError {
    /// The message of the error.
    pub fn message(&self) -> (r: String)
        ensures
            r@ == http_error_message(*self),
    {
        let mut r = String::from_str("HttpError: ");
        match self {
            HttpError::AuthError { msg, err } => {
                append_str(&mut r, msg.as_str());
                append_str(&mut r, err.as_str());
            },
            HttpError::MissingDocument { msg } => append_str(&mut r, msg.as_str()),
            HttpError::Internal { err } => append_str(&mut r, err.as_str()),
            HttpError::BadRequest { message, .. } => append_str(&mut r, message.as_str()),
            HttpError::Parsing(p) => append_str(&mut r, p.message().as_str()),
        }
        r
    }

    /// The HTTP status of the answer: 500 for an internal error, 400
    /// otherwise.
    pub fn status(&self) -> (s: u16)
        ensures
            s == spec_status(*self),
    {
        match self {
            HttpError::Internal { .. } => 500,
            _ => 400,
        }
    }

    /// The fields of the JSON body of the answer, without the date.
    pub fn body_fields(&self) -> (r: Vec<(String, BodyValue)>)
        ensures
            field_views(r@) == spec_body(*self),
    {
        let mut r: Vec<(String, BodyValue)> = Vec::new();
        match self {
            HttpError::MissingDocument { msg } => {
                r.push(field("msg", String::from_str(msg.as_str())));
            },
            HttpError::AuthError { msg, err } => {
                r.push(field("msg", String::from_str(msg.as_str())));
                r.push(field("err", String::from_str(err.as_str())));
            },
            HttpError::Internal { err } => {
                r.push(field("err", String::from_str(err.as_str())));
            },
            HttpError::BadRequest { message, valid_fields, invalid_fields } => {
                r.push(field("err", String::from_str(message.as_str())));
                r.push(field("type", String::from_str("invalid_fields")));
                r.push((String::from_str("valid_fields"), BodyValue::List(copy_strings(valid_fields))));
                r.push(
                    (String::from_str("invalid_fields"), BodyValue::List(copy_strings(invalid_fields))),
                );
            },
            HttpError::Parsing(p) => {
                r.push(field("err", p.message()));
                match p {
                    ParsingError::InvalidToken(_) => {
                        r.push(field("type", String::from_str("invalid_token")));
                    },
                    ParsingError::MissingValue(c) => {
                        r.push(field("type", String::from_str("parsing_error")));
                        let mut t = String::new();
                        push_char(&mut t, *c);
                        r.push(field("token", t));
                    },
                    ParsingError::MissingKey(c) => {
                        r.push(field("type", String::from_str("parsing_error")));
                        let mut t = String::new();
                        push_char(&mut t, *c);
                        r.push(field("token", t));
                    },
                    _ => {
                        r.push(field("type", String::from_str("parsing_error")));
                    },
                }
            },
        }
        assert(field_views(r@) =~= spec_body(*self));
        r
    }
}

} // verus!
