//! The plain values of an HTTP response that the library decides on.

use crate::operation_registry::{JobBody, OperationBody, StateBodyView};
use crate::problem::{ProblemDetails, ProblemView};
use crate::text::str_eq;
use vstd::prelude::*;
use vstd::string::*;

verus! {

/// Header fields of a response, at most one per name.
pub struct Headers {
    fields: Vec<(String, String)>,
}

/// The fields as a map; a later field of a list replaces an earlier one.
pub open spec fn field_map(fields: Seq<(String, String)>) -> Map<Seq<char>, Seq<char>>
    decreases fields.len(),
{
    if fields.len() == 0 {
        Map::empty()
    } else {
        field_map(fields.drop_last()).insert(fields.last().0@, fields.last().1@)
    }
}

impl Headers {
    pub closed spec fn list(self) -> Seq<(String, String)> {
        self.fields@
    }

    pub open spec fn view(self) -> Map<Seq<char>, Seq<char>> {
        field_map(self.list())
    }

    pub fn new() -> (headers: Headers)
        ensures
            headers@ == Map::<Seq<char>, Seq<char>>::empty(),
    {
        Headers { fields: Vec::new() }
    }

    /// The fields in the order in which they were last set.
    pub fn fields(&self) -> (fields: &Vec<(String, String)>)
        ensures
            fields@ == self.list(),
    {
        &self.fields
    }

    /// Drops the field of this name.
    pub fn remove(&mut self, name: &str)
        ensures
            final(self)@ == old(self)@.remove(name@),
    {
        let mut kept: Vec<(String, String)> = Vec::new();
        let mut index: usize = 0;
        while index < self.fields.len()
            invariant
                index <= self.fields@.len(),
                self.fields@ == old(self).fields@,
                field_map(kept@) == field_map(self.fields@.subrange(0, index as int)).remove(name@),
            decreases self.fields@.len() - index,
        {
            let ghost read = self.fields@.subrange(0, index as int);
            let ghost longer = self.fields@.subrange(0, index + 1);
            assert(longer.drop_last() =~= read);
            let ghost before = kept@;
            if !str_eq(self.fields[index].0.as_str(), name) {
                kept.push((self.fields[index].0.clone(), self.fields[index].1.clone()));
                assert(kept@.drop_last() =~= before);
            }
            assert(field_map(kept@) =~= field_map(longer).remove(name@));
            index += 1;
        }
        assert(self.fields@.subrange(0, index as int) =~= self.fields@);
        self.fields = kept;
    }

    /// Sets the field of this name, whatever it was before.
    pub fn insert(&mut self, name: &str, value: String)
        ensures
            final(self)@ == old(self)@.insert(name@, value@),
    {
        self.remove(name);
        let ghost before = self.fields@;
        self.fields.push((String::from_str(name), value));
        assert(self.fields@.drop_last() =~= before);
        assert(final(self)@ =~= old(self)@.insert(name@, value@));
    }

    /// The value of the field of this name.
    pub fn get(&self, name: &str) -> (value: Option<&str>)
        ensures
            value is Some <==> self@.contains_key(name@),
            value matches Some(value) ==> value@ == self@[name@],
    {
        let mut index: usize = self.fields.len();
        assert(self.fields@.subrange(0, index as int) =~= self.fields@);
        while index > 0
            invariant
                index <= self.fields@.len(),
                self@.contains_key(name@) == field_map(
                    self.fields@.subrange(0, index as int),
                ).contains_key(name@),
                self@.contains_key(name@) ==> self@[name@] == field_map(
                    self.fields@.subrange(0, index as int),
                )[name@],
            decreases index,
        {
            let ghost longer = self.fields@.subrange(0, index as int);
            assert(longer.drop_last() =~= self.fields@.subrange(0, index - 1));
            index -= 1;
            if str_eq(self.fields[index].0.as_str(), name) {
                return Some(self.fields[index].1.as_str());
            }
        }
        assert(self.fields@.subrange(0, 0) =~= Seq::empty());
        None
    }
}

/// An error of the login, as clients are told of it.
pub struct ErrorEnvelope {
    pub code: String,
    pub message: String,
    pub retryable: bool,
}

/// What a response carries after its head.
pub enum Body {
    Empty,
    Text(String),
    Bytes(Vec<u8>),
    /// So many bytes of the file that was opened, from an offset on.
    File(u64, u64),
    Problem(ProblemDetails),
    Operation(OperationBody),
    Job(JobBody),
    Envelope(ErrorEnvelope),
}

#[verifier::ext_equal]
pub enum BodyView {
    Empty,
    Text(Seq<char>),
    Bytes(Seq<u8>),
    File(u64, u64),
    Problem(ProblemView),
    Operation(StateBodyView),
    Job(StateBodyView),
    /// A code, a message, and whether the request can be repeated.
    Envelope(Seq<char>, Seq<char>, bool),
}

impl Body {
    pub open spec fn view(self) -> BodyView {
        match self {
            Body::Empty => BodyView::Empty,
            Body::Text(text) => BodyView::Text(text@),
            Body::Bytes(bytes) => BodyView::Bytes(bytes@),
            Body::File(offset, length) => BodyView::File(offset, length),
            Body::Problem(problem) => BodyView::Problem(problem@),
            Body::Operation(body) => BodyView::Operation(body@),
            Body::Job(body) => BodyView::Job(body@),
            Body::Envelope(body) => BodyView::Envelope(
                body.code@,
                body.message@,
                body.retryable,
            ),
        }
    }
}

/// A response under construction.
pub struct Response {
    pub status: u16,
    pub headers: Headers,
    pub body: Body,
}

#[verifier::ext_equal]
pub struct ResponseView {
    pub status: u16,
    pub headers: Map<Seq<char>, Seq<char>>,
    pub body: BodyView,
}

impl ResponseView {
    pub open spec fn with_status(self, status: u16) -> ResponseView {
        ResponseView { status, ..self }
    }

    pub open spec fn with_header(self, name: Seq<char>, value: Seq<char>) -> ResponseView {
        ResponseView { headers: self.headers.insert(name, value), ..self }
    }

    pub open spec fn without_header(self, name: Seq<char>) -> ResponseView {
        ResponseView { headers: self.headers.remove(name), ..self }
    }

    pub open spec fn with_body(self, body: BodyView) -> ResponseView {
        ResponseView { body, ..self }
    }
}

impl Response {
    pub open spec fn view(self) -> ResponseView {
        ResponseView { status: self.status, headers: self.headers@, body: self.body@ }
    }

    /// An empty success response.
    pub fn new() -> (response: Response)
        ensures
            response@ == (ResponseView {
                status: 200,
                headers: Map::empty(),
                body: BodyView::Empty,
            }),
    {
        Response { status: 200, headers: Headers::new(), body: Body::Empty }
    }

    pub fn set_header(&mut self, name: &str, value: &str)
        ensures
            final(self)@ == old(self)@.with_header(name@, value@),
    {
        self.headers.insert(name, String::from_str(value));
    }

    pub fn remove_header(&mut self, name: &str)
        ensures
            final(self)@ == old(self)@.without_header(name@),
    {
        self.headers.remove(name);
    }
}

/// A field that is added says what its name stands for from then on, and nothing of other
/// names. An empty list says nothing.
pub proof fn law_later_fields_replace_earlier_ones(
    fields: Seq<(String, String)>,
    added: (String, String),
    other: Seq<char>,
)
    ensures
        field_map(fields.push(added)).contains_key(added.0@),
        field_map(fields.push(added))[added.0@] == added.1@,
        other != added.0@ ==> (field_map(fields.push(added)).contains_key(other) <==> field_map(
            fields,
        ).contains_key(other)),
        other != added.0@ ==> field_map(fields.push(added))[other] == field_map(fields)[other],
        !field_map(Seq::<(String, String)>::empty()).contains_key(other),
{
    assert(fields.push(added).drop_last() =~= fields);
}

} // verus!
