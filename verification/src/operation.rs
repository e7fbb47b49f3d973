//! What an operation declares: its responses by status, and its parameters
//! by whether they are required.

use vstd::prelude::*;
use crate::document::{
    MediaType, Operation, Parameter, ParameterData, ParameterSchemaOrContent, Response,
    StatusCode, StatusResponse,
};
use crate::reference::RefOr;
use crate::schema::{Schema, SchemaKind, Type};
use crate::text::str_equal;

verus! {

/// The place of the first response that is declared for exactly this status:
/// where a status occurs more than once, the first occurrence is the one
/// found.
pub open spec fn response_place(responses: Seq<StatusResponse>, status: u16) -> Option<int>
    decreases responses.len(),
{
    if responses.len() == 0 {
        None
    } else if responses.last().status == StatusCode::Code(status) && response_place(
        responses.drop_last(),
        status,
    ) is None {
        Some(responses.len() - 1)
    } else {
        response_place(responses.drop_last(), status)
    }
}

/// The parameters among the first `upto` that are no references and whose
/// `required` flag is `required`, in order.
pub open spec fn parameters_where(
    parameters: Seq<RefOr<Parameter>>,
    upto: int,
    required: bool,
) -> Seq<Parameter>
    decreases upto,
{
    if upto <= 0 || upto > parameters.len() {
        Seq::empty()
    } else {
        let before = parameters_where(parameters, upto - 1, required);
        match parameters[upto - 1] {
            RefOr::Item(parameter) => if parameter.data().required == required {
                before.push(parameter)
            } else {
                before
            },
            RefOr::Reference { .. } => before,
        }
    }
}

/// The place of the first media type of a name: where a name occurs more
/// than once, the first occurrence is the one found.
pub open spec fn media_place(content: Seq<MediaType>, name: Seq<char>) -> Option<int>
    decreases content.len(),
{
    if content.len() == 0 {
        None
    } else if content.last().name@ == name && media_place(content.drop_last(), name) is None {
        Some(content.len() - 1)
    } else {
        media_place(content.drop_last(), name)
    }
}

impl Operation {
    /// The response that the operation declares for exactly this status, if
    /// it declares one and that one is no reference.
    pub fn response(&self, status: u16) -> (found: Option<&Response>)
        ensures
            match response_place(self.responses@, status) {
                Some(place) => match self.responses@[place].response {
                    RefOr::Item(response) => found == Some(&response),
                    RefOr::Reference { .. } => found is None,
                },
                None => found is None,
            },
    {
        let mut i: usize = 0;
        assert(self.responses@.take(0) =~= Seq::empty());
        while i < self.responses.len()
            invariant
                i <= self.responses@.len(),
                response_place(self.responses@.take(i as int), status) is None,
            decreases self.responses@.len() - i,
        {
            let entry = &self.responses[i];
            proof {
                let upto = self.responses@.take(i + 1);
                assert(upto.drop_last() =~= self.responses@.take(i as int));
                assert(upto.last() == self.responses@[i as int]);
            }
            let same = match entry.status {
                StatusCode::Code(code) => code == status,
                StatusCode::Range(_) => false,
            };
            if same {
                proof {
                    lemma_response_place_kept(self.responses@, i + 1, status);
                }
                return match &entry.response {
                    RefOr::Item(response) => Some(response),
                    RefOr::Reference { .. } => None,
                };
            }
            i += 1;
        }
        assert(self.responses@.take(i as int) =~= self.responses@);
        None
    }

    /// The parameters that a request must carry.
    pub fn required_parameters(&self) -> (found: Vec<&Parameter>)
        ensures
            found@.len() == parameters_where(
                self.parameters@,
                self.parameters@.len() as int,
                true,
            ).len(),
            forall|i: int|
                0 <= i < found@.len() ==> *(#[trigger] found@[i]) == parameters_where(
                    self.parameters@,
                    self.parameters@.len() as int,
                    true,
                )[i],
    {
        self.parameters_by(true)
    }

    /// The parameters that a request may leave out.
    pub fn optional_parameters(&self) -> (found: Vec<&Parameter>)
        ensures
            found@.len() == parameters_where(
                self.parameters@,
                self.parameters@.len() as int,
                false,
            ).len(),
            forall|i: int|
                0 <= i < found@.len() ==> *(#[trigger] found@[i]) == parameters_where(
                    self.parameters@,
                    self.parameters@.len() as int,
                    false,
                )[i],
    {
        self.parameters_by(false)
    }

    fn parameters_by(&self, required: bool) -> (found: Vec<&Parameter>)
        ensures
            found@.len() == parameters_where(
                self.parameters@,
                self.parameters@.len() as int,
                required,
            ).len(),
            forall|i: int|
                0 <= i < found@.len() ==> *(#[trigger] found@[i]) == parameters_where(
                    self.parameters@,
                    self.parameters@.len() as int,
                    required,
                )[i],
    {
        let mut found: Vec<&Parameter> = Vec::new();
        let mut i: usize = 0;
        while i < self.parameters.len()
            invariant
                i <= self.parameters@.len(),
                found@.len() == parameters_where(self.parameters@, i as int, required).len(),
                forall|j: int|
                    0 <= j < found@.len() ==> *(#[trigger] found@[j]) == parameters_where(
                        self.parameters@,
                        i as int,
                        required,
                    )[j],
            decreases self.parameters@.len() - i,
        {
            match &self.parameters[i] {
                RefOr::Item(parameter) => {
                    if parameter.parameter_data().required == required {
                        found.push(parameter);
                    }
                },
                RefOr::Reference { .. } => {},
            }
            i += 1;
        }
        found
    }
}

/// A response that is found among the first responses is found among all.
proof fn lemma_response_place_kept(responses: Seq<StatusResponse>, upto: int, status: u16)
    requires
        0 <= upto <= responses.len(),
        response_place(responses.take(upto), status) is Some,
    ensures
        response_place(responses, status) == response_place(responses.take(upto), status),
    decreases responses.len() - upto,
{
    if upto < responses.len() {
        let next = responses.take(upto + 1);
        assert(next.drop_last() =~= responses.take(upto));
        lemma_response_place_kept(responses, upto + 1, status);
    } else {
        assert(responses.take(upto) =~= responses);
    }
}

/// A media type that is found among the first media types is found among
/// all.
proof fn lemma_media_place_kept(content: Seq<MediaType>, upto: int, name: Seq<char>)
    requires
        0 <= upto <= content.len(),
        media_place(content.take(upto), name) is Some,
    ensures
        media_place(content, name) == media_place(content.take(upto), name),
    decreases content.len() - upto,
{
    if upto < content.len() {
        let next = content.take(upto + 1);
        assert(next.drop_last() =~= content.take(upto));
        lemma_media_place_kept(content, upto + 1, name);
    } else {
        assert(content.take(upto) =~= content);
    }
}

impl Response {
    /// The schema of the response's `application/json` content, if it has
    /// such content with a schema that is no reference.
    pub fn json_schema(&self) -> (found: Option<&Schema>)
        ensures
            match media_place(self.content@, "application/json"@) {
                Some(place) => match self.content@[place].schema {
                    Some(RefOr::Item(schema)) => found == Some(&schema),
                    _ => found is None,
                },
                None => found is None,
            },
    {
        let mut i: usize = 0;
        assert(self.content@.take(0) =~= Seq::empty());
        while i < self.content.len()
            invariant
                i <= self.content@.len(),
                media_place(self.content@.take(i as int), "application/json"@) is None,
            decreases self.content@.len() - i,
        {
            let media = &self.content[i];
            proof {
                let upto = self.content@.take(i + 1);
                assert(upto.drop_last() =~= self.content@.take(i as int));
                assert(upto.last() == self.content@[i as int]);
            }
            if str_equal(media.name.as_str(), "application/json") {
                proof {
                    lemma_media_place_kept(self.content@, i + 1, "application/json"@);
                }
                return match &media.schema {
                    Some(RefOr::Item(schema)) => Some(schema),
                    _ => None,
                };
            }
            i += 1;
        }
        assert(self.content@.take(i as int) =~= self.content@);
        None
    }
}

impl Schema {
    /// The type of a schema that declares one.
    pub fn get_type(&self) -> (the_type: &Type)
        requires
            self.schema_kind is Type,
        ensures
            *the_type == self.schema_kind->Type_0,
    {
        match &self.schema_kind {
            SchemaKind::Type(the_type) => the_type,
            _ => unreached(),
        }
    }

    /// Whether the schema declares a type, as opposed to a combination of
    /// schemas or nothing.
    pub fn is_type_defined(&self) -> (defined: bool)
        ensures
            defined == self.schema_kind is Type,
    {
        match &self.schema_kind {
            SchemaKind::Type(_) => true,
            _ => false,
        }
    }
}

impl ParameterSchemaOrContent {
    /// The schema of a parameter that is described by one that is no
    /// reference.
    pub fn item(&self) -> (schema: &Schema)
        requires
            *self matches ParameterSchemaOrContent::Schema(slot) && slot is Item,
        ensures
            *self == ParameterSchemaOrContent::Schema(RefOr::Item(*schema)),
    {
        match self {
            ParameterSchemaOrContent::Schema(RefOr::Item(schema)) => schema,
            _ => unreached(),
        }
    }

    /// Whether the parameter is described by a schema that is no reference.
    pub fn has_item(&self) -> (has: bool)
        ensures
            has == (*self matches ParameterSchemaOrContent::Schema(slot) && slot is Item),
    {
        match self {
            ParameterSchemaOrContent::Schema(RefOr::Item(_)) => true,
            _ => false,
        }
    }
}

impl ParameterData {
    /// The type of a parameter whose schema declares one.
    pub fn get_type(&self) -> (the_type: &Type)
        requires
            self.format matches ParameterSchemaOrContent::Schema(RefOr::Item(schema))
                && schema.schema_kind is Type,
        ensures
            self.format matches ParameterSchemaOrContent::Schema(RefOr::Item(schema))
                && schema.schema_kind == SchemaKind::Type(*the_type),
    {
        self.format.item().get_type()
    }

    /// Whether the parameter's schema declares a type.
    pub fn is_type_defined(&self) -> (defined: bool)
        ensures
            defined == (self.format matches ParameterSchemaOrContent::Schema(RefOr::Item(schema))
                && schema.schema_kind is Type),
    {
        if self.format.has_item() {
            self.format.item().is_type_defined()
        } else {
            false
        }
    }
}

impl Parameter {
    /// The name of the parameter.
    pub fn name(&self) -> (name: &str)
        ensures
            name@ == self.data().name@,
    {
        self.parameter_data().name.as_str()
    }

    /// The data of the parameter, whatever its location, to change it.
    pub fn parameter_data_mut(&mut self) -> (data: &mut ParameterData)
        ensures
            *data == old(self).data(),
            final(self).data() == *final(data),
            final(self).place() == old(self).place(),
    {
        match self {
            Parameter::Query { parameter_data } => parameter_data,
            Parameter::Header { parameter_data } => parameter_data,
            Parameter::Path { parameter_data } => parameter_data,
            Parameter::Cookie { parameter_data } => parameter_data,
        }
    }
}

impl Type {
    pub fn is_bool(&self) -> (is: bool)
        ensures
            is == (*self is Boolean),
    {
        match self {
            Type::Boolean => true,
            _ => false,
        }
    }

    pub fn is_integer(&self) -> (is: bool)
        ensures
            is == (*self is Integer),
    {
        match self {
            Type::Integer(_) => true,
            _ => false,
        }
    }

    pub fn is_number(&self) -> (is: bool)
        ensures
            is == (*self is Number),
    {
        match self {
            Type::Number(_) => true,
            _ => false,
        }
    }

    pub fn is_string(&self) -> (is: bool)
        ensures
            is == (*self is String),
    {
        match self {
            Type::String(_) => true,
            _ => false,
        }
    }
}

} // verus!
