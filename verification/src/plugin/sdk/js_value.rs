//! Values of scripts, as the host sees them.
use crate::text::same_text;
use vstd::prelude::*;
use vstd::utf8::*;

verus! {

/// A value of a script.
#[derive(Debug)]
pub enum JsValue {
    Undefined,
    Null,
    Bool(bool),
    /// A number, as a whole one.
    Number(i64),
    Text(String),
    /// A byte array.
    Bytes(Vec<u8>),
    List(Vec<JsValue>),
    /// An object that is neither a byte array nor a list, with its fields.
    Object(Vec<(String, JsValue)>),
    /// A byte array or a list that has named fields too.
    Named(Box<JsValue>, Vec<(String, JsValue)>),
    /// Any other value; the flag says whether it is an object.
    Other(bool),
}

/// Contents of [`JsValue`].
pub enum JsView {
    Undefined,
    Null,
    Bool(bool),
    Number(i64),
    Text(Seq<char>),
    Bytes(Seq<u8>),
    List(Seq<JsView>),
    Object(Seq<(Seq<char>, JsView)>),
    Named(Box<JsView>, Seq<(Seq<char>, JsView)>),
    Other(bool),
}

/// Contents of a value.
pub open spec fn js_view(v: JsValue) -> JsView
    decreases v,
{
    match v {
        JsValue::Undefined => JsView::Undefined,
        JsValue::Null => JsView::Null,
        JsValue::Bool(b) => JsView::Bool(b),
        JsValue::Number(n) => JsView::Number(n),
        JsValue::Text(s) => JsView::Text(s@),
        JsValue::Bytes(b) => JsView::Bytes(b@),
        JsValue::List(items) => JsView::List(
            Seq::new(
                items@.len(),
                |i: int|
                    if 0 <= i < items@.len() {
                        js_view(items@[i])
                    } else {
                        JsView::Undefined
                    },
            ),
        ),
        JsValue::Object(fields) => JsView::Object(
            Seq::new(
                fields@.len(),
                |i: int|
                    if 0 <= i < fields@.len() {
                        (fields@[i].0@, js_view(fields@[i].1))
                    } else {
                        (Seq::empty(), JsView::Undefined)
                    },
            ),
        ),
        JsValue::Named(value, fields) => JsView::Named(
            Box::new(js_view(*value)),
            Seq::new(
                fields@.len(),
                |i: int|
                    if 0 <= i < fields@.len() {
                        (fields@[i].0@, js_view(fields@[i].1))
                    } else {
                        (Seq::empty(), JsView::Undefined)
                    },
            ),
        ),
        JsValue::Other(object) => JsView::Other(object),
    }
}

/// Whether a value is missing.
pub open spec fn missing(v: JsView) -> bool {
    v is Undefined || v is Null
}

/// Whether a value is an object of some kind.
pub open spec fn is_object(v: JsView) -> bool {
    match v {
        JsView::Object(_) | JsView::List(_) | JsView::Bytes(_) | JsView::Named(..) => true,
        JsView::Other(object) => object,
        _ => false,
    }
}

/// Place of a field among fields, from a place on.
pub open spec fn field_from(fields: Seq<(Seq<char>, JsView)>, name: Seq<char>, from: int) -> JsView
    decreases fields.len() - from,
{
    if from < 0 || from >= fields.len() {
        JsView::Undefined
    } else if fields[from].0 == name {
        fields[from].1
    } else {
        field_from(fields, name, from + 1)
    }
}

/// A field of a value; undefined where it has none of that name.
pub open spec fn field_of(v: JsView, name: Seq<char>) -> JsView {
    match v {
        JsView::Object(fields) => field_from(fields, name, 0),
        JsView::Named(_, fields) => field_from(fields, name, 0),
        _ => JsView::Undefined,
    }
}

/// A field of a value, where it has one of that name.
pub fn field<'a>(v: &'a JsValue, name: &str) -> (r: Option<&'a JsValue>)
    ensures
        match r {
            Some(x) => js_view(*x) == field_of(js_view(*v), name@),
            None => field_of(js_view(*v), name@) is Undefined,
        },
{
    match v {
        JsValue::Object(fields) => {
            assert(js_view(*v)->Object_0 =~= fields_view(fields@));
            field_among(fields, name)
        },
        JsValue::Named(_, fields) => {
            assert(js_view(*v)->Named_1 =~= fields_view(fields@));
            field_among(fields, name)
        },
        _ => None,
    }
}

/// Contents of fields.
pub open spec fn fields_view(fields: Seq<(String, JsValue)>) -> Seq<(Seq<char>, JsView)> {
    Seq::new(fields.len(), |i: int| (fields[i].0@, js_view(fields[i].1)))
}

fn field_among<'a>(fields: &'a Vec<(String, JsValue)>, name: &str) -> (r: Option<&'a JsValue>)
    ensures
        match r {
            Some(x) => js_view(*x) == field_from(fields_view(fields@), name@, 0),
            None => field_from(fields_view(fields@), name@, 0) is Undefined,
        },
{
    let ghost seen = fields_view(fields@);
    let mut i: usize = 0;
    while i < fields.len()
        invariant
            i <= fields@.len(),
            seen == fields_view(fields@),
            field_from(seen, name@, 0) == field_from(seen, name@, i as int),
        decreases fields@.len() - i,
    {
        assert(seen[i as int] == (fields@[i as int].0@, js_view(fields@[i as int].1)));
        if same_text(fields[i].0.as_str(), name) {
            return Some(&fields[i].1);
        }
        i += 1;
    }
    None
}

/// The elements of a list; nothing where the value is none.
pub open spec fn elements_of(v: JsView) -> Option<Seq<JsView>> {
    match v {
        JsView::List(items) => Some(items),
        JsView::Named(value, _) => match *value {
            JsView::List(items) => Some(items),
            _ => None,
        },
        _ => None,
    }
}

/// The elements of a list; nothing where the value is none.
pub fn elements(v: &JsValue) -> (r: Option<&Vec<JsValue>>)
    ensures
        match r {
            Some(items) => elements_of(js_view(*v)) == Some(
                Seq::new(items@.len(), |i: int| js_view(items@[i])),
            ),
            None => elements_of(js_view(*v)) is None,
        },
{
    proof {
        reveal_with_fuel(js_view, 2);
    }
    match v {
        JsValue::List(items) => {
            assert(elements_of(js_view(*v))->0 =~= Seq::new(
                items@.len(),
                |i: int| js_view(items@[i]),
            ));
            Some(items)
        },
        JsValue::Named(value, _) => match &**value {
            JsValue::List(items) => {
                assert(elements_of(js_view(*v))->0 =~= Seq::new(
                    items@.len(),
                    |i: int| js_view(items@[i]),
                ));
                Some(items)
            },
            _ => None,
        },
        _ => None,
    }
}

/// A failure to read a script's value.
#[derive(Debug, PartialEq, Eq)]
pub enum JsFault {
    /// The value is of the wrong kind, with a message for the script.
    WrongKind(String),
    /// A field that must be text is not.
    NotText,
}

/// Contents of [`JsFault`].
pub enum JsFaultView {
    WrongKind(Seq<char>),
    NotText,
}

impl View for JsFault {
    type V = JsFaultView;

    open spec fn view(&self) -> JsFaultView {
        match *self {
            JsFault::WrongKind(text) => JsFaultView::WrongKind(text@),
            JsFault::NotText => JsFaultView::NotText,
        }
    }
}

/// Bytes of a value: a text stands for its encoding, a missing value for none.
pub open spec fn bytes_of(v: JsView) -> Result<Seq<u8>, JsFaultView> {
    match v {
        JsView::Undefined | JsView::Null => Ok(Seq::empty()),
        JsView::Text(s) => Ok(encode_utf8(s)),
        JsView::Bytes(b) => Ok(b),
        JsView::Named(value, _) => match *value {
            JsView::Bytes(b) => Ok(b),
            _ => Err(no_bytes()),
        },
        _ => Err(no_bytes()),
    }
}

/// The failure of a value that stands for no bytes.
pub open spec fn no_bytes() -> JsFaultView {
    JsFaultView::WrongKind("expected a string, Uint8Array or null/undefined value"@)
}

/// Contents of bytes or of a failure.
pub open spec fn bytes_result(r: Result<Vec<u8>, JsFault>) -> Result<Seq<u8>, JsFaultView> {
    match r {
        Ok(b) => Ok(b@),
        Err(e) => Err(e@),
    }
}

/// Bytes of a value.
pub fn js_bytes(v: &JsValue) -> (r: Result<Vec<u8>, JsFault>)
    ensures
        bytes_result(r) == bytes_of(js_view(*v)),
{
    match v {
        JsValue::Undefined | JsValue::Null => {
            let none: Vec<u8> = Vec::new();
            assert(none@ =~= Seq::<u8>::empty());
            Ok(none)
        },
        JsValue::Text(s) => Ok(vstd::slice::slice_to_vec(s.as_str().as_bytes())),
        JsValue::Bytes(b) => Ok(b.clone()),
        JsValue::Named(value, _) => {
            proof {
                reveal_with_fuel(js_view, 2);
            }
            match &**value {
                JsValue::Bytes(b) => Ok(b.clone()),
                _ => Err(not_bytes()),
            }
        },
        _ => Err(not_bytes()),
    }
}

fn not_bytes() -> (r: JsFault)
    ensures
        r@ == no_bytes(),
{
    JsFault::WrongKind("expected a string, Uint8Array or null/undefined value".to_owned())
}

/// A number, or a default where the value is none.
pub open spec fn number_of(v: JsView, default: i64) -> i64 {
    match v {
        JsView::Number(n) => n,
        _ => default,
    }
}

/// A number, or a default where the value is none.
pub fn js_i64(v: &JsValue, default: i64) -> (r: i64)
    ensures
        r == number_of(js_view(*v), default),
{
    match v {
        JsValue::Number(n) => *n,
        _ => default,
    }
}

/// A truth value, or a default where the value is none.
pub open spec fn bool_of(v: JsView, default: bool) -> bool {
    match v {
        JsView::Bool(b) => b,
        _ => default,
    }
}

/// A truth value, or a default where the value is none.
pub fn js_bool(v: &JsValue, default: bool) -> (r: bool)
    ensures
        r == bool_of(js_view(*v), default),
{
    match v {
        JsValue::Bool(b) => *b,
        _ => default,
    }
}

/// A number field.
pub fn obj_i64(o: &JsValue, name: &str, default: i64) -> (r: i64)
    ensures
        r == number_of(field_of(js_view(*o), name@), default),
{
    match field(o, name) {
        Some(v) => js_i64(v, default),
        None => default,
    }
}

/// A truth field.
pub fn obj_bool(o: &JsValue, name: &str, default: bool) -> (r: bool)
    ensures
        r == bool_of(field_of(js_view(*o), name@), default),
{
    match field(o, name) {
        Some(v) => js_bool(v, default),
        None => default,
    }
}

/// A byte field.
pub fn obj_bytes(o: &JsValue, name: &str) -> (r: Result<Vec<u8>, JsFault>)
    ensures
        bytes_result(r) == bytes_of(field_of(js_view(*o), name@)),
{
    match field(o, name) {
        Some(v) => js_bytes(v),
        None => js_bytes(&JsValue::Undefined),
    }
}

/// A text field that must be there.
pub open spec fn text_field(o: JsView, name: Seq<char>) -> Result<Seq<char>, JsFaultView> {
    match field_of(o, name) {
        JsView::Text(s) => Ok(s),
        _ => Err(JsFaultView::NotText),
    }
}

/// A text field that must be there.
pub fn obj_text<'a>(o: &'a JsValue, name: &str) -> (r: Result<&'a str, JsFault>)
    ensures
        match r {
            Ok(s) => text_field(js_view(*o), name@) == Ok::<Seq<char>, JsFaultView>(s@),
            Err(e) => text_field(js_view(*o), name@) == Err::<Seq<char>, JsFaultView>(e@),
        },
{
    match field(o, name) {
        Some(JsValue::Text(s)) => Ok(s.as_str()),
        _ => Err(JsFault::NotText),
    }
}

/// Message of a value that must be text.
pub open spec fn must_be_text(what: Seq<char>) -> Seq<char> {
    "'"@ + what + "' must be a string"@
}

/// A value that must be text.
pub fn js_string(v: &JsValue, what: &str) -> (r: Result<String, JsFault>)
    ensures
        match (js_view(*v), r) {
            (JsView::Text(s), Ok(t)) => t@ == s,
            (JsView::Text(_), Err(_)) => false,
            (_, Err(e)) => e@ == JsFaultView::WrongKind(must_be_text(what@)),
            (_, Ok(_)) => false,
        },
{
    match v {
        JsValue::Text(s) => Ok(s.clone()),
        _ => Err(JsFault::WrongKind(crate::text::join3("'", what, "' must be a string"))),
    }
}

/// The options of a call: none where they are missing, else they must be an object.
pub open spec fn options_of(v: JsView) -> Result<bool, JsFaultView> {
    if missing(v) {
        Ok(false)
    } else if is_object(v) {
        Ok(true)
    } else {
        Err(JsFaultView::WrongKind("options must be an object"@))
    }
}

/// Whether a call has options.
pub fn opt_object(v: &JsValue) -> (r: Result<bool, JsFault>)
    ensures
        match r {
            Ok(there) => options_of(js_view(*v)) == Ok::<bool, JsFaultView>(there),
            Err(e) => options_of(js_view(*v)) == Err::<bool, JsFaultView>(e@),
        },
{
    match v {
        JsValue::Undefined | JsValue::Null => Ok(false),
        JsValue::Object(_) | JsValue::List(_) | JsValue::Bytes(_) | JsValue::Named(..) => Ok(true),
        JsValue::Other(true) => Ok(true),
        _ => Err(JsFault::WrongKind("options must be an object".to_owned())),
    }
}

/// Whether a value is an object of some kind.
pub fn js_is_object(v: &JsValue) -> (r: bool)
    ensures
        r == is_object(js_view(*v)),
{
    match v {
        JsValue::Object(_) | JsValue::List(_) | JsValue::Bytes(_) | JsValue::Named(..) => true,
        JsValue::Other(object) => *object,
        _ => false,
    }
}

} // verus!
