//! The two textual projections of an object stream, as values.
//!
//! An element of either projection holds what the text shows: names, the
//! value read by the rules of its type, and the children. Writing and reading
//! the text itself is left to the caller.

use crate::object_stream::{
    bytes_of, lemma_view_elements, models, text_of, Element, ElementModel, ObjectStream,
    StreamModel, StreamTag, BINARY_STREAM_TAG,
};
use crate::object_stream::built::{head_is_consistent, is_consistent};
use crate::object_stream::flags::{build_flags_within, built_flags};
use crate::utils::hash;
use crate::utils::text::{
    decimal, lowercase_of, push_decimal, push_signed_decimal, signed_decimal, to_lowercase,
};
use crate::utils::types::{
    data_of_value, lemma_value_round_trip, typed_value, uuid_data_to_serialize, value_bytes,
    Value, ValueModel,
};
use crate::utils::crc32_of;
use vstd::prelude::*;
use vstd::string::StringExecFns;
use vstd::utf8::encode_utf8;

verus! {

/// An element as XML shows it.
#[derive(Debug)]
pub struct XMLElement {
    /// The name of the type, empty where it is not known.
    pub name: String,
    /// The name of the field.
    pub field: Option<String>,
    /// The value.
    pub value: Option<Value>,
    /// The version.
    pub version: Option<u8>,
    /// The id of the type.
    pub id: u128,
    /// The children.
    pub elements: Vec<XMLElement>,
}

/// A stream as XML shows it.
#[derive(Debug)]
pub struct XMLObjectStream {
    pub version: u32,
    pub elements: Vec<XMLElement>,
}

/// An element as JSON shows it.
#[derive(Debug)]
pub struct JSONElement {
    /// The name of the field.
    pub field: Option<String>,
    /// The id of the type.
    pub id: u128,
    /// The name of the type, empty where it is not known.
    pub name: String,
    /// The id of the specialisation.
    pub specialization: Option<u128>,
    /// The value, which is always a text.
    pub value: Option<Value>,
    /// The version.
    pub version: Option<u8>,
    /// The children; left out where the element has a value and no child.
    pub elements: Option<Vec<JSONElement>>,
}

/// A stream as JSON shows it.
#[derive(Debug)]
pub struct JSONObjectStream {
    /// Always `ObjectStream`.
    pub name: String,
    pub version: u32,
    pub elements: Vec<JSONElement>,
}

/// What an [`XMLElement`] holds.
pub struct XMLElementModel {
    pub name: Seq<char>,
    pub field: Option<Seq<char>>,
    pub value: Option<ValueModel>,
    pub version: Option<u8>,
    pub id: u128,
    pub elements: Seq<XMLElementModel>,
}

/// What a [`JSONElement`] holds.
pub struct JSONElementModel {
    pub field: Option<Seq<char>>,
    pub id: u128,
    pub name: Seq<char>,
    pub specialization: Option<u128>,
    pub value: Option<ValueModel>,
    pub version: Option<u8>,
    pub elements: Option<Seq<JSONElementModel>>,
}

/// What an optional value holds.
pub open spec fn value_of(value: Option<Value>) -> Option<ValueModel> {
    match value {
        Some(v) => Some(v@),
        None => None,
    }
}

/// What `element` holds: its own fields, and what each child holds.
pub open spec fn xml_model_of(element: XMLElement) -> XMLElementModel
    decreases element,
{
    XMLElementModel {
        name: element.name@,
        field: text_of(element.field),
        value: value_of(element.value),
        version: element.version,
        id: element.id,
        elements: Seq::new(
            element.elements@.len(),
            |i: int|
                if 0 <= i < element.elements@.len() {
                    xml_model_of(element.elements@[i])
                } else {
                    arbitrary()
                },
        ),
    }
}

impl View for XMLElement {
    type V = XMLElementModel;

    open spec fn view(&self) -> XMLElementModel {
        xml_model_of(*self)
    }
}

/// The models of a list of elements.
pub open spec fn xml_models(elements: Seq<XMLElement>) -> Seq<XMLElementModel> {
    Seq::new(elements.len(), |i: int| elements[i]@)
}

/// What `element` holds: its own fields, and what each child holds.
pub open spec fn json_model_of(element: JSONElement) -> JSONElementModel
    decreases element,
{
    JSONElementModel {
        field: text_of(element.field),
        id: element.id,
        name: element.name@,
        specialization: element.specialization,
        value: value_of(element.value),
        version: element.version,
        elements: match element.elements {
            Some(children) => Some(
                Seq::new(
                    children@.len(),
                    |i: int|
                        if 0 <= i < children@.len() {
                            json_model_of(children@[i])
                        } else {
                            arbitrary()
                        },
                ),
            ),
            None => None,
        },
    }
}

impl View for JSONElement {
    type V = JSONElementModel;

    open spec fn view(&self) -> JSONElementModel {
        json_model_of(*self)
    }
}

/// The models of a list of elements.
pub open spec fn json_models(elements: Seq<JSONElement>) -> Seq<JSONElementModel> {
    Seq::new(elements.len(), |i: int| elements[i]@)
}

/// The value of a result, if it is one.
pub open spec fn ok_value<E>(r: Result<ValueModel, E>) -> Option<ValueModel> {
    match r {
        Ok(v) => Some(v),
        Err(_) => None,
    }
}

/// The XML element that shows `e`. The value is there where the element
/// holds bytes, unless these are none and the element has children; it is
/// what the type of the element makes of the bytes, and is left out where
/// the bytes do not fit the type.
pub open spec fn xml_of(e: ElementModel) -> XMLElementModel
    decreases e,
{
    XMLElementModel {
        name: e.name,
        field: e.field,
        value: match e.data {
            Some(data) => if data.len() != 0 || e.elements.len() == 0 {
                ok_value(typed_value(e.id, data, false))
            } else {
                None
            },
            None => None,
        },
        version: e.version,
        id: e.id,
        elements: Seq::new(
            e.elements.len(),
            |i: int|
                if 0 <= i < e.elements.len() {
                    xml_of(e.elements[i])
                } else {
                    arbitrary()
                },
        ),
    }
}

/// A value as the text that JSON shows for it: a text and a
/// floating-point number as they are, a whole number by its digits, a truth
/// value as `true` or `false`, a list or an object as the text of its JSON.
pub open spec fn as_text(value: ValueModel) -> ValueModel {
    match value {
        ValueModel::Signed(v) => ValueModel::Text(signed_decimal(v as int)),
        ValueModel::Unsigned(v) => ValueModel::Text(decimal(v as nat)),
        ValueModel::Bool(v) => ValueModel::Text(
            if v {
                "true"@
            } else {
                "false"@
            },
        ),
        ValueModel::Singles(v) => ValueModel::SinglesJson(v),
        ValueModel::Asset(v) => ValueModel::AssetJson(v),
        other => other,
    }
}

/// The JSON element that shows `e`. The value is what the type of the
/// element makes of its bytes, as a text; it is the empty text where the
/// element holds no byte and has no child. The list of children is left out
/// where it is empty and the element holds bytes.
pub open spec fn json_of(e: ElementModel) -> JSONElementModel
    decreases e,
{
    JSONElementModel {
        field: e.field,
        id: e.id,
        name: e.name,
        specialization: e.specialization,
        value: match e.data {
            Some(data) => if data.len() != 0 {
                match typed_value(e.id, data, true) {
                    Ok(v) => Some(as_text(v)),
                    Err(_) => None,
                }
            } else if e.elements.len() == 0 {
                Some(ValueModel::Text(Seq::empty()))
            } else {
                None
            },
            None => None,
        },
        version: e.version,
        elements: if e.elements.len() == 0 && e.data is Some {
            None
        } else {
            Some(
                Seq::new(
                    e.elements.len(),
                    |i: int|
                        if 0 <= i < e.elements.len() {
                            json_of(e.elements[i])
                        } else {
                            arbitrary()
                        },
                ),
            )
        },
    }
}

/// A copy of an optional text.
fn clone_text(text: &Option<String>) -> (r: Option<String>)
    ensures
        text_of(r) == text_of(*text),
{
    match text {
        Some(s) => Some(s.clone()),
        None => None,
    }
}

/// A value as the text that JSON shows for it.
fn value_as_text(value: Value) -> (r: Value)
    ensures
        r@ == as_text(value@),
{
    match value {
        Value::Signed(v) => {
            let mut out = String::new();
            push_signed_decimal(&mut out, v);
            assert(out@ =~= signed_decimal(v as int));
            Value::Text(out)
        },
        Value::Unsigned(v) => {
            let mut out = String::new();
            push_decimal(&mut out, v);
            assert(out@ =~= decimal(v as nat));
            Value::Text(out)
        },
        Value::Bool(v) => if v {
            Value::Text(String::from_str("true"))
        } else {
            Value::Text(String::from_str("false"))
        },
        Value::Singles(v) => Value::SinglesJson(v),
        Value::Asset(v) => Value::AssetJson(v),
        other => other,
    }
}

impl XMLElement {
    /// The XML element that shows `element`.
    pub fn from_element(element: &Element) -> (r: XMLElement)
        ensures
            r@ == xml_of(element@),
        decreases element,
    {
        let value = match &element.data {
            Some(data) => if data.len() != 0 || element.elements.len() == 0 {
                match uuid_data_to_serialize(element.id, data.as_slice(), false) {
                    Ok(v) => Some(v),
                    Err(_) => None,
                }
            } else {
                None
            },
            None => None,
        };
        let mut children: Vec<XMLElement> = Vec::new();
        let mut i: usize = 0;
        proof {
            lemma_view_elements(*element);
        }
        while i < element.elements.len()
            invariant
                i <= element.elements@.len(),
                children@.len() == i,
                element@.elements == models(element.elements@),
                forall|k: int| 0 <= k < i ==> (#[trigger] children@[k])@ == xml_of(element@.elements[k]),
            decreases element.elements@.len() - i,
        {
            let child = XMLElement::from_element(&element.elements[i]);
            children.push(child);
            i += 1;
        }
        let r = XMLElement {
            name: element.name.clone(),
            field: clone_text(&element.field),
            value,
            version: element.version,
            id: element.id,
            elements: children,
        };
        proof {
            assert(r@.elements =~= xml_of(element@).elements);
        }
        r
    }
}

impl JSONElement {
    /// The JSON element that shows `element`.
    pub fn from_element(element: &Element) -> (r: JSONElement)
        ensures
            r@ == json_of(element@),
        decreases element,
    {
        let value = match &element.data {
            Some(data) => if data.len() != 0 {
                match uuid_data_to_serialize(element.id, data.as_slice(), true) {
                    Ok(v) => Some(value_as_text(v)),
                    Err(_) => None,
                }
            } else if element.elements.len() == 0 {
                Some(Value::Text(String::new()))
            } else {
                None
            },
            None => None,
        };
        let mut children: Vec<JSONElement> = Vec::new();
        let mut i: usize = 0;
        proof {
            lemma_view_elements(*element);
        }
        while i < element.elements.len()
            invariant
                i <= element.elements@.len(),
                children@.len() == i,
                element@.elements == models(element.elements@),
                forall|k: int|
                    0 <= k < i ==> (#[trigger] children@[k])@ == json_of(element@.elements[k]),
            decreases element.elements@.len() - i,
        {
            let child = JSONElement::from_element(&element.elements[i]);
            children.push(child);
            i += 1;
        }
        let elements = if children.len() == 0 && element.data.is_some() {
            None
        } else {
            Some(children)
        };
        let r = JSONElement {
            field: clone_text(&element.field),
            id: element.id,
            name: element.name.clone(),
            specialization: element.specialization,
            value,
            version: element.version,
            elements,
        };
        proof {
            if r@.elements is Some {
                assert(r@.elements->Some_0 =~= json_of(element@).elements->Some_0);
            }
        }
        r
    }
}

/// The hash that stands for a field name in a binary stream: the CRC32 of
/// the name in lower case.
pub open spec fn field_crc(field: Seq<char>) -> u32 {
    crc32_of(encode_utf8(lowercase_of(field)))
}

/// The hash that stands for the field name `field` in a binary stream.
pub fn hash_field(field: &str) -> (r: u32)
    ensures
        r == field_crc(field@),
{
    let lower = to_lowercase(field);
    hash(lower.as_str().as_bytes())
}

/// The hash of a field name that is present.
pub open spec fn optional_field_crc(field: Option<Seq<char>>) -> Option<u32> {
    match field {
        Some(f) => Some(field_crc(f)),
        None => None,
    }
}

/// The bytes that an element carries for the value that a projection
/// shows: those of the value, where it has bytes in an element of the type
/// `id` and these are not too many for a size field.
pub open spec fn carried(id: u128, value: Option<ValueModel>) -> Option<Seq<u8>> {
    match value {
        Some(v) => match value_bytes(id, v) {
            Some(bytes) => if bytes.len() <= 0xffff_ffff {
                Some(bytes)
            } else {
                None
            },
            None => None,
        },
        None => None,
    }
}

/// The length of bytes that are present.
pub open spec fn carried_size(data: Option<Seq<u8>>) -> Option<usize> {
    match data {
        Some(bytes) => Some(bytes.len() as usize),
        None => None,
    }
}

/// The element of a binary stream that an XML element stands for. Its
/// flags are built from what is present, and the hash of its field name is
/// computed from the name.
pub open spec fn element_of_xml(x: XMLElementModel) -> ElementModel
    decreases x,
{
    ElementModel {
        flags: built_flags(
            x.field is Some,
            x.version is Some,
            carried_size(carried(x.id, x.value)),
        )->Some_0,
        name_crc: optional_field_crc(x.field),
        version: x.version,
        id: x.id,
        specialization: None,
        name: x.name,
        data_size: carried_size(carried(x.id, x.value)),
        data: carried(x.id, x.value),
        elements: Seq::new(
            x.elements.len(),
            |i: int|
                if 0 <= i < x.elements.len() {
                    element_of_xml(x.elements[i])
                } else {
                    arbitrary()
                },
        ),
        field: x.field,
    }
}

/// The children that a JSON element shows: none where it shows no list.
pub open spec fn shown_children(x: JSONElementModel) -> Seq<JSONElementModel> {
    match x.elements {
        Some(children) => children,
        None => Seq::empty(),
    }
}

/// The element of a binary stream that a JSON element stands for. Its
/// flags are built from what is present, and the hash of its field name is
/// computed from the name.
pub open spec fn element_of_json(x: JSONElementModel) -> ElementModel
    decreases x,
{
    ElementModel {
        flags: built_flags(
            x.field is Some,
            x.version is Some,
            carried_size(carried(x.id, x.value)),
        )->Some_0,
        name_crc: optional_field_crc(x.field),
        version: x.version,
        id: x.id,
        specialization: x.specialization,
        name: x.name,
        data_size: carried_size(carried(x.id, x.value)),
        data: carried(x.id, x.value),
        elements: match x.elements {
            Some(children) => Seq::new(
                children.len(),
                |i: int|
                    if 0 <= i < children.len() {
                        element_of_json(children[i])
                    } else {
                        arbitrary()
                    },
            ),
            None => Seq::empty(),
        },
        field: x.field,
    }
}

/// The children of an element's model are the models of its children.
pub proof fn lemma_xml_view_elements(e: XMLElement)
    ensures
        e@.elements == xml_models(e.elements@),
{
    assert(e@.elements =~= xml_models(e.elements@));
}

/// The children of an element's model are the models of its children.
pub proof fn lemma_json_view_elements(e: JSONElement)
    ensures
        e@.elements == (match e.elements {
            Some(children) => Some(json_models(children@)),
            None => None,
        }),
{
    match e.elements {
        Some(children) => {
            assert(e@.elements->Some_0 =~= json_models(children@));
        },
        None => {},
    }
}

/// The bytes that an element carries for the value that a projection shows.
fn carry(id: u128, value: &Option<Value>) -> (r: Option<Vec<u8>>)
    ensures
        bytes_of(r) == carried(id, value_of(*value)),
{
    match value {
        Some(v) => match data_of_value(id, v) {
            Some(bytes) => if bytes.len() <= 0xffff_ffff {
                Some(bytes)
            } else {
                None
            },
            None => None,
        },
        None => None,
    }
}

/// The flags, the size and the bytes of an element that is built.
fn build_value(has_name: bool, has_version: bool, data: Option<Vec<u8>>) -> (r: (
    u8,
    Option<usize>,
    Option<Vec<u8>>,
))
    requires
        data is Some ==> data->Some_0@.len() <= 0xffff_ffff,
    ensures
        r.0 == built_flags(has_name, has_version, carried_size(bytes_of(data)))->Some_0,
        r.1 == carried_size(bytes_of(data)),
        r.2 == data,
{
    let size = match &data {
        Some(bytes) => Some(bytes.len()),
        None => None,
    };
    (build_flags_within(has_name, has_version, size), size, data)
}

/// The hash of a field name that is present.
fn hash_optional_field(field: &Option<String>) -> (r: Option<u32>)
    ensures
        r == optional_field_crc(text_of(*field)),
{
    match field {
        Some(f) => Some(hash_field(f.as_str())),
        None => None,
    }
}

impl Element {
    /// The element of a binary stream that the XML element `x` stands for.
    pub fn from_xml(x: &XMLElement) -> (r: Element)
        ensures
            r@ == element_of_xml(x@),
        decreases x,
    {
        let mut children: Vec<Element> = Vec::new();
        let mut i: usize = 0;
        proof {
            lemma_xml_view_elements(*x);
        }
        while i < x.elements.len()
            invariant
                i <= x.elements@.len(),
                children@.len() == i,
                x@.elements == xml_models(x.elements@),
                forall|k: int|
                    0 <= k < i ==> (#[trigger] children@[k])@ == element_of_xml(x@.elements[k]),
            decreases x.elements@.len() - i,
        {
            let child = Element::from_xml(&x.elements[i]);
            children.push(child);
            i += 1;
        }
        let (flags, data_size, data) = build_value(
            x.field.is_some(),
            x.version.is_some(),
            carry(x.id, &x.value),
        );
        let r = Element {
            flags,
            name_crc: hash_optional_field(&x.field),
            version: x.version,
            id: x.id,
            specialization: None,
            name: x.name.clone(),
            data_size,
            data,
            elements: children,
            field: clone_text(&x.field),
        };
        proof {
            lemma_view_elements(r);
            assert(r@.elements =~= element_of_xml(x@).elements);
        }
        r
    }

    /// The element of a binary stream that the JSON element `x` stands for.
    pub fn from_json(x: &JSONElement) -> (r: Element)
        ensures
            r@ == element_of_json(x@),
        decreases x,
    {
        let mut children: Vec<Element> = Vec::new();
        proof {
            lemma_json_view_elements(*x);
        }
        match &x.elements {
            Some(shown) => {
                let mut i: usize = 0;
                while i < shown.len()
                    invariant
                        i <= shown@.len(),
                        children@.len() == i,
                        x.elements == Some(*shown),
                        x@.elements == Some(json_models(shown@)),
                        forall|k: int|
                            0 <= k < i ==> (#[trigger] children@[k])@ == element_of_json(
                                shown@[k]@,
                            ),
                    decreases shown@.len() - i,
                {
                    let child = Element::from_json(&shown[i]);
                    children.push(child);
                    i += 1;
                }
            },
            None => {},
        }
        let (flags, data_size, data) = build_value(
            x.field.is_some(),
            x.version.is_some(),
            carry(x.id, &x.value),
        );
        let r = Element {
            flags,
            name_crc: hash_optional_field(&x.field),
            version: x.version,
            id: x.id,
            specialization: x.specialization,
            name: x.name.clone(),
            data_size,
            data,
            elements: children,
            field: clone_text(&x.field),
        };
        proof {
            lemma_view_elements(r);
            assert(r@.elements =~= element_of_json(x@).elements);
        }
        r
    }
}

impl XMLObjectStream {
    /// The stream as XML shows it.
    pub fn from_stream(value: &ObjectStream) -> (r: XMLObjectStream)
        ensures
            r.version == value.version,
            xml_models(r.elements@) == Seq::new(
                value@.elements.len(),
                |i: int| xml_of(value@.elements[i]),
            ),
    {
        let mut elements: Vec<XMLElement> = Vec::new();
        let mut i: usize = 0;
        while i < value.elements.len()
            invariant
                i <= value.elements@.len(),
                elements@.len() == i,
                forall|k: int|
                    0 <= k < i ==> (#[trigger] elements@[k])@ == xml_of(value.elements@[k]@),
            decreases value.elements@.len() - i,
        {
            elements.push(XMLElement::from_element(&value.elements[i]));
            i += 1;
        }
        assert(xml_models(elements@) =~= Seq::new(
            value@.elements.len(),
            |i: int| xml_of(value@.elements[i]),
        ));
        XMLObjectStream { version: value.version, elements }
    }
}

impl JSONObjectStream {
    /// The stream as JSON shows it.
    pub fn from_stream(value: &ObjectStream) -> (r: JSONObjectStream)
        ensures
            r.name@ == "ObjectStream"@,
            r.version == value.version,
            json_models(r.elements@) == Seq::new(
                value@.elements.len(),
                |i: int| json_of(value@.elements[i]),
            ),
    {
        let mut elements: Vec<JSONElement> = Vec::new();
        let mut i: usize = 0;
        while i < value.elements.len()
            invariant
                i <= value.elements@.len(),
                elements@.len() == i,
                forall|k: int|
                    0 <= k < i ==> (#[trigger] elements@[k])@ == json_of(value.elements@[k]@),
            decreases value.elements@.len() - i,
        {
            elements.push(JSONElement::from_element(&value.elements[i]));
            i += 1;
        }
        assert(json_models(elements@) =~= Seq::new(
            value@.elements.len(),
            |i: int| json_of(value@.elements[i]),
        ));
        JSONObjectStream { name: String::from_str("ObjectStream"), version: value.version, elements }
    }
}

impl ObjectStream {
    /// The binary stream that a stream shown as XML stands for.
    pub fn from_xml(value: &XMLObjectStream) -> (r: ObjectStream)
        ensures
            r@ == (StreamModel {
                tag: BINARY_STREAM_TAG,
                version: value.version,
                elements: Seq::new(
                    value.elements@.len(),
                    |i: int| element_of_xml(value.elements@[i]@),
                ),
            }),
    {
        let mut elements: Vec<Element> = Vec::new();
        let mut i: usize = 0;
        while i < value.elements.len()
            invariant
                i <= value.elements@.len(),
                elements@.len() == i,
                forall|k: int|
                    0 <= k < i ==> (#[trigger] elements@[k])@ == element_of_xml(
                        value.elements@[k]@,
                    ),
            decreases value.elements@.len() - i,
        {
            elements.push(Element::from_xml(&value.elements[i]));
            i += 1;
        }
        let r = ObjectStream { tag: StreamTag(BINARY_STREAM_TAG), version: value.version, elements };
        assert(r@.elements =~= Seq::new(
            value.elements@.len(),
            |i: int| element_of_xml(value.elements@[i]@),
        ));
        r
    }

    /// The binary stream that a stream shown as JSON stands for.
    pub fn from_json(value: &JSONObjectStream) -> (r: ObjectStream)
        ensures
            r@ == (StreamModel {
                tag: BINARY_STREAM_TAG,
                version: value.version,
                elements: Seq::new(
                    value.elements@.len(),
                    |i: int| element_of_json(value.elements@[i]@),
                ),
            }),
    {
        let mut elements: Vec<Element> = Vec::new();
        let mut i: usize = 0;
        while i < value.elements.len()
            invariant
                i <= value.elements@.len(),
                elements@.len() == i,
                forall|k: int|
                    0 <= k < i ==> (#[trigger] elements@[k])@ == element_of_json(
                        value.elements@[k]@,
                    ),
            decreases value.elements@.len() - i,
        {
            elements.push(Element::from_json(&value.elements[i]));
            i += 1;
        }
        let r = ObjectStream { tag: StreamTag(BINARY_STREAM_TAG), version: value.version, elements };
        assert(r@.elements =~= Seq::new(
            value.elements@.len(),
            |i: int| element_of_json(value.elements@[i]@),
        ));
        r
    }
}

/// The element that an XML element stands for has a head that says what it
/// holds, and so have its descendants, in a stream of any version but 2: the
/// bytes of a stream that is made from XML decode again.
pub proof fn lemma_element_of_xml_is_consistent(x: XMLElementModel, stream_version: u32)
    requires
        stream_version != 2,
    ensures
        is_consistent(element_of_xml(x), stream_version),
    decreases x,
{
    let e = element_of_xml(x);
    assert(head_is_consistent(e, stream_version));
    assert forall|i: int| 0 <= i < e.elements.len() implies is_consistent(
        #[trigger] e.elements[i],
        stream_version,
    ) by {
        lemma_element_of_xml_is_consistent(x.elements[i], stream_version);
    }
}

/// Whether a JSON element and its descendants show a specialisation id
/// where the stream version calls for one, and nowhere else.
pub open spec fn specialization_fits(x: JSONElementModel, stream_version: u32) -> bool
    decreases x,
{
    &&& x.specialization is Some == (stream_version == 2)
    &&& match x.elements {
        Some(children) => forall|i: int|
            0 <= i < children.len() ==> specialization_fits(#[trigger] children[i], stream_version),
        None => true,
    }
}

/// The element that a JSON element stands for has a head that says what it
/// holds, and so have its descendants, where the specialisation ids fit the
/// version of the stream.
pub proof fn lemma_element_of_json_is_consistent(x: JSONElementModel, stream_version: u32)
    requires
        specialization_fits(x, stream_version),
    ensures
        is_consistent(element_of_json(x), stream_version),
    decreases x,
{
    let e = element_of_json(x);
    assert(head_is_consistent(e, stream_version));
    match x.elements {
        Some(children) => {
            assert forall|i: int| 0 <= i < e.elements.len() implies is_consistent(
                #[trigger] e.elements[i],
                stream_version,
            ) by {
                assert(specialization_fits(children[i], stream_version));
                lemma_element_of_json_is_consistent(children[i], stream_version);
            }
        },
        None => {},
    }
}

/// Whether what an XML element shows can be carried by an element of a
/// binary stream: its value, if it has one, has bytes in an element of its
/// type, and these are not none where the element has children; and the same
/// holds of its children.
pub open spec fn xml_is_carried(x: XMLElementModel) -> bool
    decreases x,
{
    &&& match x.value {
        Some(v) => carried(x.id, x.value) is Some && (carried(x.id, x.value)->Some_0.len() != 0
            || x.elements.len() == 0),
        None => true,
    }
    &&& forall|i: int| 0 <= i < x.elements.len() ==> xml_is_carried(#[trigger] x.elements[i])
}

/// From XML to the binary model and back: an XML element that can be
/// carried is shown again as it was.
pub proof fn lemma_xml_round_trip(x: XMLElementModel)
    requires
        xml_is_carried(x),
    ensures
        xml_of(element_of_xml(x)) == x,
    decreases x,
{
    let e = element_of_xml(x);
    let back = xml_of(e);
    match x.value {
        Some(v) => {
            lemma_value_round_trip(x.id, v, false);
        },
        None => {},
    }
    assert(back.value == x.value);
    assert forall|i: int| 0 <= i < x.elements.len() implies back.elements[i] == x.elements[i] by {
        assert(xml_is_carried(x.elements[i]));
        lemma_xml_round_trip(x.elements[i]);
    }
    assert(back.elements =~= x.elements);
}

/// Whether what a JSON element shows can be carried by an element of a
/// binary stream: its value, if it has one, is a text or a floating-point
/// number that has bytes in an element of its type, and the bytes are not
/// none unless the value is the empty text of an element without children;
/// its list of children is left out exactly where it has a value and no
/// child; and the same holds of its children.
pub open spec fn json_is_carried(x: JSONElementModel) -> bool
    decreases x,
{
    &&& match x.value {
        Some(v) => {
            &&& as_text(v) == v
            &&& carried(x.id, x.value) is Some
            &&& carried(x.id, x.value)->Some_0.len() == 0 ==> v == ValueModel::Text(Seq::empty())
                && shown_children(x).len() == 0
        },
        None => true,
    }
    &&& x.elements is None == (x.value is Some && shown_children(x).len() == 0)
    &&& match x.elements {
        Some(children) => forall|i: int|
            0 <= i < children.len() ==> json_is_carried(#[trigger] children[i]),
        None => true,
    }
}

/// From JSON to the binary model and back: a JSON element that can be
/// carried is shown again as it was.
pub proof fn lemma_json_round_trip(x: JSONElementModel)
    requires
        json_is_carried(x),
    ensures
        json_of(element_of_json(x)) == x,
    decreases x,
{
    let e = element_of_json(x);
    let back = json_of(e);
    match x.value {
        Some(v) => {
            lemma_value_round_trip(x.id, v, true);
        },
        None => {},
    }
    assert(back.value == x.value);
    match x.elements {
        Some(children) => {
            assert forall|i: int| 0 <= i < children.len() implies back.elements->Some_0[i]
                == children[i] by {
                assert(json_is_carried(children[i]));
                lemma_json_round_trip(children[i]);
            }
            assert(back.elements->Some_0 =~= children);
        },
        None => {},
    }
}

} // verus!
