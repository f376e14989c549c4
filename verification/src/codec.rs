//! The stored form of a configuration: which JSON documents stand for which
//! values, and the functions that read and write them.
//!
//! ```text
//! Configuration := [ Process, .. ]
//! Process       := { "id": uint, "parallel": bool, "transfer": [ Transfer, .. ] }
//! Transfer      := { "id": uint, "operation": "overwrite" | "update" | "upsert",
//!                    "src": Endpoint, "dst": Endpoint }
//! Endpoint      := { "path": string, "option": [ string, .. ] }
//! ```
//!
//! Every field is required. Fields of other names are passed over. Where a
//! document is not accepted, the first fault in the order of the grammar is
//! the one reported.

use crate::configuration::{process_views, Configuration, ConfigurationError, ConfigurationView};
use crate::json::{field_views, item_views, json_of_text, text_of_json, Json, JsonView, ParseError};
use crate::process::{transfer_views, Process, ProcessView};
use crate::transfer::{
    texts, Destination, EndpointView, Operation, Source, Transfer, TransferView,
};
use vstd::prelude::*;

verus! {

/// `str`'s `==`, from std: two strings are equal where they hold the same
/// characters in the same order.
pub assume_specification[ <str as PartialEq>::eq ](a: &str, b: &str) -> (r: bool)
    ensures
        r == (a@ == b@),
;

/// Whether `i` is the first position in `fields` with this name.
pub open spec fn named_at(fields: Seq<(Seq<char>, JsonView)>, name: Seq<char>, i: int) -> bool {
    &&& 0 <= i < fields.len()
    &&& fields[i].0 == name
    &&& forall|j: int| 0 <= j < i ==> fields[j].0 != name
}

/// The value of the first field with this name, if there is one.
pub open spec fn field(fields: Seq<(Seq<char>, JsonView)>, name: Seq<char>) -> Option<JsonView> {
    if exists|i: int| named_at(fields, name, i) {
        Some(fields[choose|i: int| named_at(fields, name, i)].1)
    } else {
        None
    }
}

/// What a required field decodes to: `MissingField` where no field has the
/// name, else what `decode` makes of the first one that has it.
pub open spec fn required<T>(
    fields: Seq<(Seq<char>, JsonView)>,
    name: Seq<char>,
    decode: spec_fn(JsonView) -> Result<T, ParseError>,
) -> Result<T, ParseError> {
    match field(fields, name) {
        Some(value) => decode(value),
        None => Err(ParseError::MissingField),
    }
}

/// An id is a number from 0 to 2^32 - 1.
pub open spec fn decode_id(j: JsonView) -> Result<u32, ParseError> {
    match j {
        JsonView::Number(Some(n)) if n <= u32::MAX => Ok(n as u32),
        _ => Err(ParseError::Mismatch),
    }
}

/// A flag is `true` or `false`.
pub open spec fn decode_flag(j: JsonView) -> Result<bool, ParseError> {
    match j {
        JsonView::Bool(b) => Ok(b),
        _ => Err(ParseError::Mismatch),
    }
}

/// A text is a string, taken as it is written.
pub open spec fn decode_text(j: JsonView) -> Result<Seq<char>, ParseError> {
    match j {
        JsonView::String(s) => Ok(s),
        _ => Err(ParseError::Mismatch),
    }
}

/// What a list decodes to, given what each of its items decodes to: the
/// values in their order, or the fault of the first item that has one.
pub open spec fn collect<T>(results: Seq<Result<T, ParseError>>) -> Result<Seq<T>, ParseError>
    decreases results.len(),
{
    if results.len() == 0 {
        Ok(Seq::empty())
    } else {
        match collect(results.drop_last()) {
            Err(e) => Err(e),
            Ok(front) => match results.last() {
                Err(e) => Err(e),
                Ok(value) => Ok(front.push(value)),
            },
        }
    }
}

/// What each item decodes to as a string.
pub open spec fn each_text(items: Seq<JsonView>) -> Seq<Result<Seq<char>, ParseError>> {
    Seq::new(items.len(), |i: int| decode_text(items[i]))
}

/// The strings that the items stand for, or the fault of the first item that
/// is no string.
pub open spec fn decode_texts(items: Seq<JsonView>) -> Result<Seq<Seq<char>>, ParseError> {
    collect(each_text(items))
}

/// The options of an endpoint are an array of strings, in their order.
pub open spec fn decode_options(j: JsonView) -> Result<Seq<Seq<char>>, ParseError> {
    match j {
        JsonView::Array(items) => decode_texts(items),
        _ => Err(ParseError::Mismatch),
    }
}

/// The operation that a name stands for.
pub open spec fn operation_named(name: Seq<char>) -> Option<Operation> {
    if name == "overwrite"@ {
        Some(Operation::Overwrite)
    } else if name == "update"@ {
        Some(Operation::Update)
    } else if name == "upsert"@ {
        Some(Operation::Upsert)
    } else {
        None
    }
}

/// The name of an operation: its variant in lower case.
pub open spec fn operation_name(operation: Operation) -> Seq<char> {
    match operation {
        Operation::Overwrite => "overwrite"@,
        Operation::Update => "update"@,
        Operation::Upsert => "upsert"@,
    }
}

/// An operation is a string that is one of the three names.
pub open spec fn decode_operation(j: JsonView) -> Result<Operation, ParseError> {
    match j {
        JsonView::String(name) => match operation_named(name) {
            Some(operation) => Ok(operation),
            None => Err(ParseError::UnknownOperation),
        },
        _ => Err(ParseError::Mismatch),
    }
}

/// An endpoint is an object with a `path` and an `option` list.
pub open spec fn decode_endpoint(j: JsonView) -> Result<EndpointView, ParseError> {
    match j {
        JsonView::Object(fields) => match (
            required(fields, "path"@, |v: JsonView| decode_text(v)),
            required(fields, "option"@, |v: JsonView| decode_options(v)),
        ) {
            (Ok(path), Ok(option)) => Ok(EndpointView { path, option }),
            (Err(e), _) => Err(e),
            (_, Err(e)) => Err(e),
        },
        _ => Err(ParseError::Mismatch),
    }
}

/// Each string as a document.
pub open spec fn encode_texts(strings: Seq<Seq<char>>) -> Seq<JsonView> {
    Seq::new(strings.len(), |i: int| JsonView::String(strings[i]))
}

/// The document of an endpoint: its fields in the order `path`, `option`.
pub open spec fn encode_endpoint(endpoint: EndpointView) -> JsonView {
    JsonView::Object(
        seq![
            ("path"@, JsonView::String(endpoint.path)),
            ("option"@, JsonView::Array(encode_texts(endpoint.option))),
        ],
    )
}

/// The document of an operation: its name.
pub open spec fn encode_operation(operation: Operation) -> JsonView {
    JsonView::String(operation_name(operation))
}

/// A transfer is an object with an `id`, an `operation`, a `src` and a
/// `dst`.
pub open spec fn decode_transfer(j: JsonView) -> Result<TransferView, ParseError> {
    match j {
        JsonView::Object(fields) => match (
            required(fields, "id"@, |v: JsonView| decode_id(v)),
            required(fields, "operation"@, |v: JsonView| decode_operation(v)),
            required(fields, "src"@, |v: JsonView| decode_endpoint(v)),
            required(fields, "dst"@, |v: JsonView| decode_endpoint(v)),
        ) {
            (Ok(id), Ok(operation), Ok(src), Ok(dst)) => Ok(
                TransferView { id, operation, src, dst },
            ),
            (Err(e), _, _, _) => Err(e),
            (_, Err(e), _, _) => Err(e),
            (_, _, Err(e), _) => Err(e),
            (_, _, _, Err(e)) => Err(e),
        },
        _ => Err(ParseError::Mismatch),
    }
}

/// The document of a transfer: its fields in the order `id`, `operation`,
/// `src`, `dst`.
pub open spec fn encode_transfer(transfer: TransferView) -> JsonView {
    JsonView::Object(
        seq![
            ("id"@, JsonView::Number(Some(transfer.id as u64))),
            ("operation"@, encode_operation(transfer.operation)),
            ("src"@, encode_endpoint(transfer.src)),
            ("dst"@, encode_endpoint(transfer.dst)),
        ],
    )
}

/// What each item decodes to as a transfer.
pub open spec fn each_transfer(items: Seq<JsonView>) -> Seq<Result<TransferView, ParseError>> {
    Seq::new(items.len(), |i: int| decode_transfer(items[i]))
}

/// The transfers of a process are an array of transfers, in their order.
pub open spec fn decode_transfers(j: JsonView) -> Result<Seq<TransferView>, ParseError> {
    match j {
        JsonView::Array(items) => collect(each_transfer(items)),
        _ => Err(ParseError::Mismatch),
    }
}

/// A process is an object with an `id`, a `parallel` flag and a `transfer`
/// list.
pub open spec fn decode_process(j: JsonView) -> Result<ProcessView, ParseError> {
    match j {
        JsonView::Object(fields) => match (
            required(fields, "id"@, |v: JsonView| decode_id(v)),
            required(fields, "parallel"@, |v: JsonView| decode_flag(v)),
            required(fields, "transfer"@, |v: JsonView| decode_transfers(v)),
        ) {
            (Ok(id), Ok(parallel), Ok(transfer)) => Ok(ProcessView { id, parallel, transfer }),
            (Err(e), _, _) => Err(e),
            (_, Err(e), _) => Err(e),
            (_, _, Err(e)) => Err(e),
        },
        _ => Err(ParseError::Mismatch),
    }
}

/// What each item decodes to as a process.
pub open spec fn each_process(items: Seq<JsonView>) -> Seq<Result<ProcessView, ParseError>> {
    Seq::new(items.len(), |i: int| decode_process(items[i]))
}

/// The processes of a configuration are an array of processes, in their
/// order.
pub open spec fn decode_processes(j: JsonView) -> Result<Seq<ProcessView>, ParseError> {
    match j {
        JsonView::Array(items) => collect(each_process(items)),
        _ => Err(ParseError::Mismatch),
    }
}

/// A configuration is stored as the array of its processes.
pub open spec fn decode_configuration(j: JsonView) -> Result<ConfigurationView, ParseError> {
    match decode_processes(j) {
        Ok(process) => Ok(ConfigurationView { process }),
        Err(e) => Err(e),
    }
}

/// Each transfer as a document.
pub open spec fn encode_transfers(transfers: Seq<TransferView>) -> Seq<JsonView> {
    Seq::new(transfers.len(), |i: int| encode_transfer(transfers[i]))
}

/// The document of a process: its fields in the order `id`, `parallel`,
/// `transfer`.
pub open spec fn encode_process(process: ProcessView) -> JsonView {
    JsonView::Object(
        seq![
            ("id"@, JsonView::Number(Some(process.id as u64))),
            ("parallel"@, JsonView::Bool(process.parallel)),
            ("transfer"@, JsonView::Array(encode_transfers(process.transfer))),
        ],
    )
}

/// Each process as a document.
pub open spec fn encode_processes(processes: Seq<ProcessView>) -> Seq<JsonView> {
    Seq::new(processes.len(), |i: int| encode_process(processes[i]))
}

/// The document of a configuration: the array of its processes.
pub open spec fn encode_configuration(configuration: ConfigurationView) -> JsonView {
    JsonView::Array(encode_processes(configuration.process))
}

/// What a text stands for, given what its document decodes to: `Syntax`
/// where the text is no JSON document, else what `decode` makes of it.
pub open spec fn from_text<T>(
    text: Seq<char>,
    decode: spec_fn(JsonView) -> Result<T, ParseError>,
) -> Result<T, ParseError> {
    match json_of_text(text) {
        Some(tree) => decode(tree),
        None => Err(ParseError::Syntax),
    }
}

/// The transfer that a text stands for.
pub open spec fn transfer_of_text(text: Seq<char>) -> Result<TransferView, ParseError> {
    from_text(text, |j: JsonView| decode_transfer(j))
}

/// The process that a text stands for.
pub open spec fn process_of_text(text: Seq<char>) -> Result<ProcessView, ParseError> {
    from_text(text, |j: JsonView| decode_process(j))
}

/// The processes that a text stands for.
pub open spec fn processes_of_text(text: Seq<char>) -> Result<Seq<ProcessView>, ParseError> {
    from_text(text, |j: JsonView| decode_processes(j))
}

/// The configuration that a text stands for.
pub open spec fn configuration_of_text(text: Seq<char>) -> Result<ConfigurationView, ParseError> {
    from_text(text, |j: JsonView| decode_configuration(j))
}

/// What was decoded, by its value.
pub open spec fn viewed<T: View>(r: Result<T, ParseError>) -> Result<T::V, ParseError> {
    match r {
        Ok(x) => Ok(x@),
        Err(e) => Err(e),
    }
}

/// The strings that were decoded, by their characters.
pub open spec fn listed_texts(r: Result<Vec<String>, ParseError>) -> Result<
    Seq<Seq<char>>,
    ParseError,
> {
    match r {
        Ok(strings) => Ok(texts(strings@)),
        Err(e) => Err(e),
    }
}

/// The transfers that were decoded, by their values.
pub open spec fn listed_transfers(r: Result<Vec<Transfer>, ParseError>) -> Result<
    Seq<TransferView>,
    ParseError,
> {
    match r {
        Ok(transfers) => Ok(transfer_views(transfers@)),
        Err(e) => Err(e),
    }
}

/// The processes that were decoded, by their values.
pub open spec fn listed_processes(r: Result<Vec<Process>, ParseError>) -> Result<
    Seq<ProcessView>,
    ParseError,
> {
    match r {
        Ok(processes) => Ok(process_views(processes@)),
        Err(e) => Err(e),
    }
}

/// Where every item has a value, the list has these values.
pub proof fn lemma_collect_values<T>(results: Seq<Result<T, ParseError>>, values: Seq<T>)
    requires
        results.len() == values.len(),
        forall|i: int| 0 <= i < results.len() ==> results[i] == Ok::<T, ParseError>(values[i]),
    ensures
        collect(results) == Ok::<Seq<T>, ParseError>(values),
    decreases results.len(),
{
    if results.len() > 0 {
        lemma_collect_values(results.drop_last(), values.drop_last());
        assert(values.drop_last().push(values.last()) =~= values);
    } else {
        assert(values =~= Seq::empty());
    }
}

/// Where an item has a fault, the list has one.
pub proof fn lemma_collect_rejects<T>(results: Seq<Result<T, ParseError>>, n: int)
    requires
        0 <= n < results.len(),
        results[n] is Err,
    ensures
        collect(results) is Err,
{
    lemma_collect_step(results, n);
    lemma_collect_fault(results, n + 1);
}

/// The field of this name stands first among the fields of its name.
proof fn lemma_field_at(fields: Seq<(Seq<char>, JsonView)>, name: Seq<char>, i: int)
    requires
        named_at(fields, name, i),
    ensures
        field(fields, name) == Some(fields[i].1),
{
    let k = choose|k: int| named_at(fields, name, k);
    assert(k == i);
}

/// The names of the fields differ from one another.
proof fn lemma_names_differ()
    ensures
        "path"@ != "option"@,
        "id"@ != "operation"@,
        "id"@ != "src"@,
        "id"@ != "dst"@,
        "operation"@ != "src"@,
        "operation"@ != "dst"@,
        "src"@ != "dst"@,
        "id"@ != "parallel"@,
        "id"@ != "transfer"@,
        "parallel"@ != "transfer"@,
        "overwrite"@ != "update"@,
        "overwrite"@ != "upsert"@,
        "update"@ != "upsert"@,
{
    reveal_strlit("path");
    reveal_strlit("option");
    reveal_strlit("id");
    reveal_strlit("operation");
    reveal_strlit("src");
    reveal_strlit("dst");
    reveal_strlit("parallel");
    reveal_strlit("transfer");
    reveal_strlit("overwrite");
    reveal_strlit("update");
    reveal_strlit("upsert");
    assert("path"@[0] == 'p' && "option"@[0] == 'o' && "id"@[0] == 'i');
    assert("operation"@[0] == 'o' && "src"@[0] == 's' && "dst"@[0] == 'd');
    assert("parallel"@[0] == 'p' && "transfer"@[0] == 't');
    assert("overwrite"@[0] == 'o' && "update"@[0] == 'u');
    assert("update"@[2] == 'd' && "upsert"@[2] == 's');
}

/// An endpoint that is written and read again is the same endpoint, option
/// by option.
pub proof fn law_endpoint_round_trip(endpoint: EndpointView)
    ensures
        decode_endpoint(encode_endpoint(endpoint)) == Ok::<EndpointView, ParseError>(endpoint),
{
    lemma_names_differ();
    let fields = encode_endpoint(endpoint)->Object_0;
    lemma_field_at(fields, "path"@, 0);
    lemma_field_at(fields, "option"@, 1);
    let items = encode_texts(endpoint.option);
    lemma_collect_values(each_text(items), endpoint.option);
}

/// An operation that is written and read again is the same operation.
pub proof fn law_operation_round_trip(operation: Operation)
    ensures
        operation_named(operation_name(operation)) == Some(operation),
        decode_operation(encode_operation(operation)) == Ok::<Operation, ParseError>(operation),
{
    lemma_names_differ();
}

/// A transfer that is written and read again is the same transfer.
pub proof fn law_transfer_round_trip(transfer: TransferView)
    ensures
        decode_transfer(encode_transfer(transfer)) == Ok::<TransferView, ParseError>(transfer),
{
    lemma_names_differ();
    law_operation_round_trip(transfer.operation);
    law_endpoint_round_trip(transfer.src);
    law_endpoint_round_trip(transfer.dst);
    let fields = encode_transfer(transfer)->Object_0;
    lemma_field_at(fields, "id"@, 0);
    lemma_field_at(fields, "operation"@, 1);
    lemma_field_at(fields, "src"@, 2);
    lemma_field_at(fields, "dst"@, 3);
}

/// A process that is written and read again is the same process, transfer
/// by transfer.
pub proof fn law_process_round_trip(process: ProcessView)
    ensures
        decode_process(encode_process(process)) == Ok::<ProcessView, ParseError>(process),
{
    lemma_names_differ();
    let fields = encode_process(process)->Object_0;
    lemma_field_at(fields, "id"@, 0);
    lemma_field_at(fields, "parallel"@, 1);
    lemma_field_at(fields, "transfer"@, 2);
    let items = encode_transfers(process.transfer);
    assert forall|i: int| 0 <= i < items.len() implies each_transfer(items)[i] == Ok::<
        TransferView,
        ParseError,
    >(process.transfer[i]) by {
        law_transfer_round_trip(process.transfer[i]);
    }
    lemma_collect_values(each_transfer(items), process.transfer);
}

/// A configuration that is written and read again is the same
/// configuration, field for field.
pub proof fn law_round_trip(configuration: ConfigurationView)
    ensures
        decode_configuration(encode_configuration(configuration)) == Ok::<
            ConfigurationView,
            ParseError,
        >(configuration),
{
    let items = encode_processes(configuration.process);
    assert forall|i: int| 0 <= i < items.len() implies each_process(items)[i] == Ok::<
        ProcessView,
        ParseError,
    >(configuration.process[i]) by {
        law_process_round_trip(configuration.process[i]);
    }
    lemma_collect_values(each_process(items), configuration.process);
}

/// An operation of another name than the three is rejected.
pub proof fn law_operation_closed(name: Seq<char>)
    requires
        name != "overwrite"@,
        name != "update"@,
        name != "upsert"@,
    ensures
        decode_operation(JsonView::String(name)) == Err::<Operation, ParseError>(
            ParseError::UnknownOperation,
        ),
{
}

/// An object that lacks a required field is rejected, whatever else it
/// holds.
pub proof fn law_required_fields(fields: Seq<(Seq<char>, JsonView)>)
    ensures
        field(fields, "path"@) is None || field(fields, "option"@) is None ==> decode_endpoint(
            JsonView::Object(fields),
        ) is Err,
        field(fields, "id"@) is None || field(fields, "operation"@) is None || field(
            fields,
            "src"@,
        ) is None || field(fields, "dst"@) is None ==> decode_transfer(JsonView::Object(fields))
            is Err,
        field(fields, "id"@) is None || field(fields, "parallel"@) is None || field(
            fields,
            "transfer"@,
        ) is None ==> decode_process(JsonView::Object(fields)) is Err,
{
}

/// A fault in a part is a fault of the whole: a transfer with a rejected
/// field, a process with a rejected transfer and a configuration with a
/// rejected process are rejected.
pub proof fn law_rejection_spreads(j: JsonView)
    ensures
        j matches JsonView::Object(fields) ==> {
            &&& (field(fields, "operation"@) matches Some(v) && decode_operation(v) is Err)
                ==> (decode_transfer(j) is Err)
            &&& (field(fields, "src"@) matches Some(v) && decode_endpoint(v) is Err) ==> (
            decode_transfer(j) is Err)
            &&& (field(fields, "dst"@) matches Some(v) && decode_endpoint(v) is Err) ==> (
            decode_transfer(j) is Err)
            &&& (field(fields, "transfer"@) matches Some(v) && decode_transfers(v) is Err) ==> (
            decode_process(j) is Err)
        },
        j matches JsonView::Array(items) ==> {
            &&& (exists|i: int| 0 <= i < items.len() && decode_transfer(#[trigger] items[i]) is Err)
                ==> (decode_transfers(j) is Err)
            &&& (exists|i: int| 0 <= i < items.len() && decode_process(#[trigger] items[i]) is Err)
                ==> (decode_configuration(j) is Err)
        },
{
    match j {
        JsonView::Array(items) => {
            if exists|i: int| 0 <= i < items.len() && decode_transfer(#[trigger] items[i]) is Err {
                let i = choose|i: int|
                    0 <= i < items.len() && decode_transfer(#[trigger] items[i]) is Err;
                lemma_collect_rejects(each_transfer(items), i);
            }
            if exists|i: int| 0 <= i < items.len() && decode_process(#[trigger] items[i]) is Err {
                let i = choose|i: int|
                    0 <= i < items.len() && decode_process(#[trigger] items[i]) is Err;
                lemma_collect_rejects(each_process(items), i);
            }
        },
        _ => {},
    }
}

/// The first field with this name, if there is one.
fn lookup<'a>(fields: &'a Vec<(String, Json)>, name: &str) -> (r: Option<&'a Json>)
    ensures
        match r {
            Some(value) => field(field_views(fields@), name@) == Some(value@),
            None => field(field_views(fields@), name@) is None,
        },
{
    let mut i: usize = 0;
    while i < fields.len()
        invariant
            i <= fields.len(),
            forall|j: int| 0 <= j < i ==> field_views(fields@)[j].0 != name@,
        decreases fields.len() - i,
    {
        if fields[i].0.as_str().eq(name) {
            assert(named_at(field_views(fields@), name@, i as int));
            return Some(&fields[i].1);
        }
        i += 1;
    }
    None
}

fn read_id(j: &Json) -> (r: Result<u32, ParseError>)
    ensures
        r == decode_id(j@),
{
    match j {
        Json::Number(Some(n)) => {
            if *n <= u32::MAX as u64 {
                Ok(*n as u32)
            } else {
                Err(ParseError::Mismatch)
            }
        },
        _ => Err(ParseError::Mismatch),
    }
}

fn read_flag(j: &Json) -> (r: Result<bool, ParseError>)
    ensures
        r == decode_flag(j@),
{
    match j {
        Json::Bool(b) => Ok(*b),
        _ => Err(ParseError::Mismatch),
    }
}

fn read_text(j: &Json) -> (r: Result<String, ParseError>)
    ensures
        viewed(r) == decode_text(j@),
{
    match j {
        Json::String(s) => Ok(s.clone()),
        _ => Err(ParseError::Mismatch),
    }
}

fn read_options(j: &Json) -> (r: Result<Vec<String>, ParseError>)
    ensures
        listed_texts(r) == decode_options(j@),
{
    match j {
        Json::Array(items) => {
            let ghost results = each_text(item_views(items@));
            let mut option: Vec<String> = Vec::new();
            let mut i: usize = 0;
            proof {
                assert(texts(option@) =~= Seq::empty());
            }
            while i < items.len()
                invariant
                    i <= items.len(),
                    j@ == JsonView::Array(item_views(items@)),
                    results == each_text(item_views(items@)),
                    collect(results.take(i as int)) == listed_texts(Ok(option)),
                decreases items.len() - i,
            {
                proof {
                    lemma_collect_step(results, i as int);
                    assert(results[i as int] == decode_text(items@[i as int]@));
                }
                match read_text(&items[i]) {
                    Ok(s) => {
                        let ghost before = option@;
                        option.push(s);
                        assert(texts(option@) =~= texts(before).push(s@));
                    },
                    Err(e) => {
                        proof {
                            lemma_collect_fault(results, i + 1);
                        }
                        return Err(e);
                    },
                }
                i += 1;
            }
            proof {
                assert(results.take(i as int) =~= results);
            }
            Ok(option)
        },
        _ => Err(ParseError::Mismatch),
    }
}

/// One more item at the end adds its value, or its fault where the items
/// before it have none.
pub proof fn lemma_collect_step<T>(results: Seq<Result<T, ParseError>>, n: int)
    requires
        0 <= n < results.len(),
    ensures
        collect(results.take(0)) == Ok::<Seq<T>, ParseError>(Seq::empty()),
        collect(results.take(n + 1)) == match collect(results.take(n)) {
            Err(e) => Err(e),
            Ok(front) => match results[n] {
                Err(e) => Err(e),
                Ok(value) => Ok(front.push(value)),
            },
        },
{
    assert(results.take(n + 1).drop_last() =~= results.take(n));
}

/// A fault among the first items is the fault of the whole list.
pub proof fn lemma_collect_fault<T>(results: Seq<Result<T, ParseError>>, n: int)
    requires
        0 <= n <= results.len(),
        collect(results.take(n)) is Err,
    ensures
        collect(results) == collect(results.take(n)),
    decreases results.len() - n,
{
    if n < results.len() {
        lemma_collect_step(results, n);
        lemma_collect_fault(results, n + 1);
    } else {
        assert(results.take(n) =~= results);
    }
}

/// The path and the options of an endpoint.
fn read_endpoint(j: &Json) -> (r: Result<(String, Vec<String>), ParseError>)
    ensures
        match r {
            Ok(parts) => decode_endpoint(j@) == Ok::<EndpointView, ParseError>(
                EndpointView { path: parts.0@, option: texts(parts.1@) },
            ),
            Err(e) => decode_endpoint(j@) == Err::<EndpointView, ParseError>(e),
        },
{
    match j {
        Json::Object(fields) => {
            let path = match lookup(fields, "path") {
                None => return Err(ParseError::MissingField),
                Some(v) => match read_text(v) {
                    Err(e) => return Err(e),
                    Ok(path) => path,
                },
            };
            let option = match lookup(fields, "option") {
                None => return Err(ParseError::MissingField),
                Some(v) => match read_options(v) {
                    Err(e) => return Err(e),
                    Ok(option) => option,
                },
            };
            Ok((path, option))
        },
        _ => Err(ParseError::Mismatch),
    }
}

/// The document of an endpoint with this path and these options.
fn write_endpoint(path: &String, option: &Vec<String>) -> (j: Json)
    ensures
        j@ == encode_endpoint(EndpointView { path: path@, option: texts(option@) }),
{
    let mut items: Vec<Json> = Vec::new();
    let mut i: usize = 0;
    while i < option.len()
        invariant
            i <= option.len(),
            items@.len() == i,
            item_views(items@) == encode_texts(texts(option@).take(i as int)),
        decreases option.len() - i,
    {
        let ghost before = items@;
        items.push(Json::String(option[i].clone()));
        proof {
            assert forall|k: int| 0 <= k < i implies item_views(items@)[k] == encode_texts(
                texts(option@).take(i + 1),
            )[k] by {
                assert(items@[k] == before[k]);
                assert(item_views(before)[k] == encode_texts(texts(option@).take(i as int))[k]);
            }
            assert(item_views(items@) =~= encode_texts(texts(option@).take(i + 1)));
        }
        i += 1;
    }
    proof {
        assert(texts(option@).take(i as int) =~= texts(option@));
    }
    let mut fields: Vec<(String, Json)> = Vec::new();
    fields.push(("path".to_owned(), Json::String(path.clone())));
    fields.push(("option".to_owned(), Json::Array(items)));
    proof {
        assert(field_views(fields@) =~= seq![
            ("path"@, JsonView::String(path@)),
            ("option"@, JsonView::Array(encode_texts(texts(option@)))),
        ]);
    }
    Json::Object(fields)
}

impl Operation {
    /// The operation that a name stands for: one of the three names in lower
    /// case, letter for letter.
    pub fn from_name(name: &str) -> (r: Option<Operation>)
        ensures
            r == operation_named(name@),
    {
        if name.eq("overwrite") {
            Some(Operation::Overwrite)
        } else if name.eq("update") {
            Some(Operation::Update)
        } else if name.eq("upsert") {
            Some(Operation::Upsert)
        } else {
            None
        }
    }

    /// The name of the operation.
    pub fn name(self) -> (r: &'static str)
        ensures
            r@ == operation_name(self),
    {
        match self {
            Operation::Overwrite => "overwrite",
            Operation::Update => "update",
            Operation::Upsert => "upsert",
        }
    }

    /// Reads an operation from its document.
    pub fn from_json(j: &Json) -> (r: Result<Operation, ParseError>)
        ensures
            r == decode_operation(j@),
    {
        match j {
            Json::String(name) => match Operation::from_name(name.as_str()) {
                Some(operation) => Ok(operation),
                None => Err(ParseError::UnknownOperation),
            },
            _ => Err(ParseError::Mismatch),
        }
    }

    /// The document of the operation.
    pub fn to_json(self) -> (j: Json)
        ensures
            j@ == encode_operation(self),
    {
        Json::String(self.name().to_owned())
    }
}

impl Source {
    /// Reads a source from its document.
    pub fn from_json(j: &Json) -> (r: Result<Source, ParseError>)
        ensures
            viewed(r) == decode_endpoint(j@),
    {
        match read_endpoint(j) {
            Ok(parts) => Ok(Source { path: parts.0, option: parts.1 }),
            Err(e) => Err(e),
        }
    }

    /// The document of the source.
    pub fn to_json(&self) -> (j: Json)
        ensures
            j@ == encode_endpoint(self@),
    {
        write_endpoint(&self.path, &self.option)
    }
}

impl Destination {
    /// Reads a destination from its document.
    pub fn from_json(j: &Json) -> (r: Result<Destination, ParseError>)
        ensures
            viewed(r) == decode_endpoint(j@),
    {
        match read_endpoint(j) {
            Ok(parts) => Ok(Destination { path: parts.0, option: parts.1 }),
            Err(e) => Err(e),
        }
    }

    /// The document of the destination.
    pub fn to_json(&self) -> (j: Json)
        ensures
            j@ == encode_endpoint(self@),
    {
        write_endpoint(&self.path, &self.option)
    }
}

impl Transfer {
    /// Reads a transfer from its document.
    pub fn from_json(j: &Json) -> (r: Result<Transfer, ParseError>)
        ensures
            viewed(r) == decode_transfer(j@),
    {
        match j {
            Json::Object(fields) => {
                let id = match lookup(fields, "id") {
                    None => return Err(ParseError::MissingField),
                    Some(v) => match read_id(v) {
                        Err(e) => return Err(e),
                        Ok(id) => id,
                    },
                };
                let operation = match lookup(fields, "operation") {
                    None => return Err(ParseError::MissingField),
                    Some(v) => match Operation::from_json(v) {
                        Err(e) => return Err(e),
                        Ok(operation) => operation,
                    },
                };
                let src = match lookup(fields, "src") {
                    None => return Err(ParseError::MissingField),
                    Some(v) => match Source::from_json(v) {
                        Err(e) => return Err(e),
                        Ok(src) => src,
                    },
                };
                let dst = match lookup(fields, "dst") {
                    None => return Err(ParseError::MissingField),
                    Some(v) => match Destination::from_json(v) {
                        Err(e) => return Err(e),
                        Ok(dst) => dst,
                    },
                };
                Ok(Transfer { id, operation, src, dst })
            },
            _ => Err(ParseError::Mismatch),
        }
    }

    /// The document of the transfer.
    pub fn to_json(&self) -> (j: Json)
        ensures
            j@ == encode_transfer(self@),
    {
        let mut fields: Vec<(String, Json)> = Vec::new();
        fields.push(("id".to_owned(), Json::Number(Some(self.id as u64))));
        fields.push(("operation".to_owned(), self.operation.to_json()));
        fields.push(("src".to_owned(), self.src.to_json()));
        fields.push(("dst".to_owned(), self.dst.to_json()));
        proof {
            assert(field_views(fields@) =~= seq![
                ("id"@, JsonView::Number(Some(self.id as u64))),
                ("operation"@, encode_operation(self.operation)),
                ("src"@, encode_endpoint(self.src@)),
                ("dst"@, encode_endpoint(self.dst@)),
            ]);
        }
        Json::Object(fields)
    }
}

fn read_transfers(j: &Json) -> (r: Result<Vec<Transfer>, ParseError>)
    ensures
        listed_transfers(r) == decode_transfers(j@),
{
    match j {
        Json::Array(items) => {
            let ghost results = each_transfer(item_views(items@));
            let mut transfers: Vec<Transfer> = Vec::new();
            let mut i: usize = 0;
            proof {
                assert(transfer_views(transfers@) =~= Seq::empty());
            }
            while i < items.len()
                invariant
                    i <= items.len(),
                    j@ == JsonView::Array(item_views(items@)),
                    results == each_transfer(item_views(items@)),
                    collect(results.take(i as int)) == listed_transfers(Ok(transfers)),
                decreases items.len() - i,
            {
                proof {
                    lemma_collect_step(results, i as int);
                    assert(results[i as int] == decode_transfer(items@[i as int]@));
                }
                match Transfer::from_json(&items[i]) {
                    Ok(t) => {
                        let ghost before = transfers@;
                        transfers.push(t);
                        assert(transfer_views(transfers@) =~= transfer_views(before).push(t@));
                    },
                    Err(e) => {
                        proof {
                            lemma_collect_fault(results, i + 1);
                        }
                        return Err(e);
                    },
                }
                i += 1;
            }
            proof {
                assert(results.take(i as int) =~= results);
            }
            Ok(transfers)
        },
        _ => Err(ParseError::Mismatch),
    }
}

impl Process {
    /// Reads a process from its document.
    pub fn from_json(j: &Json) -> (r: Result<Process, ParseError>)
        ensures
            viewed(r) == decode_process(j@),
    {
        match j {
            Json::Object(fields) => {
                let id = match lookup(fields, "id") {
                    None => return Err(ParseError::MissingField),
                    Some(v) => match read_id(v) {
                        Err(e) => return Err(e),
                        Ok(id) => id,
                    },
                };
                let parallel = match lookup(fields, "parallel") {
                    None => return Err(ParseError::MissingField),
                    Some(v) => match read_flag(v) {
                        Err(e) => return Err(e),
                        Ok(parallel) => parallel,
                    },
                };
                let transfer = match lookup(fields, "transfer") {
                    None => return Err(ParseError::MissingField),
                    Some(v) => match read_transfers(v) {
                        Err(e) => return Err(e),
                        Ok(transfer) => transfer,
                    },
                };
                Ok(Process { id, parallel, transfer })
            },
            _ => Err(ParseError::Mismatch),
        }
    }

    /// The document of the process.
    pub fn to_json(&self) -> (j: Json)
        ensures
            j@ == encode_process(self@),
    {
        let mut items: Vec<Json> = Vec::new();
        let mut i: usize = 0;
        while i < self.transfer.len()
            invariant
                i <= self.transfer.len(),
                items@.len() == i,
                item_views(items@) == encode_transfers(self@.transfer.take(i as int)),
            decreases self.transfer.len() - i,
        {
            let ghost before = items@;
            items.push(self.transfer[i].to_json());
            proof {
                assert forall|k: int| 0 <= k < i implies item_views(items@)[k] == encode_transfers(
                    self@.transfer.take(i + 1),
                )[k] by {
                    assert(items@[k] == before[k]);
                    assert(item_views(before)[k] == encode_transfers(
                        self@.transfer.take(i as int),
                    )[k]);
                }
                assert(item_views(items@) =~= encode_transfers(self@.transfer.take(i + 1)));
            }
            i += 1;
        }
        proof {
            assert(self@.transfer.take(i as int) =~= self@.transfer);
        }
        let mut fields: Vec<(String, Json)> = Vec::new();
        fields.push(("id".to_owned(), Json::Number(Some(self.id as u64))));
        fields.push(("parallel".to_owned(), Json::Bool(self.parallel)));
        fields.push(("transfer".to_owned(), Json::Array(items)));
        proof {
            assert(field_views(fields@) =~= seq![
                ("id"@, JsonView::Number(Some(self.id as u64))),
                ("parallel"@, JsonView::Bool(self.parallel)),
                ("transfer"@, JsonView::Array(encode_transfers(self@.transfer))),
            ]);
        }
        Json::Object(fields)
    }

    /// Reads a process from JSON text.
    pub fn new(s: &str) -> (r: Result<Process, ParseError>)
        ensures
            viewed(r) == process_of_text(s@),
    {
        match Json::parse(s) {
            Ok(tree) => Process::from_json(&tree),
            Err(e) => Err(e),
        }
    }
}

impl Transfer {
    /// Reads a transfer from JSON text.
    pub fn from_str(s: &str) -> (r: Result<Transfer, ParseError>)
        ensures
            viewed(r) == transfer_of_text(s@),
    {
        match Json::parse(s) {
            Ok(tree) => Transfer::from_json(&tree),
            Err(e) => Err(e),
        }
    }
}

impl TryFrom<&str> for Transfer {
    type Error = ParseError;

    /// Reads a transfer from JSON text.
    fn try_from(value: &str) -> (r: Result<Transfer, ParseError>)
        ensures
            viewed(r) == transfer_of_text(value@),
    {
        Transfer::from_str(value)
    }
}

/// What `try_from` returns is stated by its own contract, over the value of
/// the transfer: no spec function gives the transfer itself.
impl vstd::std_specs::convert::TryFromSpecImpl<&str> for Transfer {
    open spec fn obeys_try_from_spec() -> bool {
        false
    }

    open spec fn try_from_spec(v: &str) -> Result<Transfer, ParseError> {
        arbitrary()
    }
}

impl TryFrom<&str> for Process {
    type Error = ParseError;

    /// Reads a process from JSON text.
    fn try_from(value: &str) -> (r: Result<Process, ParseError>)
        ensures
            viewed(r) == process_of_text(value@),
    {
        Process::new(value)
    }
}

/// What `try_from` returns is stated by its own contract, over the value of
/// the process: no spec function gives the process itself.
impl vstd::std_specs::convert::TryFromSpecImpl<&str> for Process {
    open spec fn obeys_try_from_spec() -> bool {
        false
    }

    open spec fn try_from_spec(v: &str) -> Result<Process, ParseError> {
        arbitrary()
    }
}

impl Configuration {
    /// Reads the processes of a configuration from their document.
    pub fn processes_from_json(j: &Json) -> (r: Result<Vec<Process>, ParseError>)
        ensures
            listed_processes(r) == decode_processes(j@),
    {
        match j {
            Json::Array(items) => {
                let ghost results = each_process(item_views(items@));
                let mut processes: Vec<Process> = Vec::new();
                let mut i: usize = 0;
                proof {
                    assert(process_views(processes@) =~= Seq::empty());
                }
                while i < items.len()
                    invariant
                        i <= items.len(),
                        j@ == JsonView::Array(item_views(items@)),
                        results == each_process(item_views(items@)),
                        collect(results.take(i as int)) == listed_processes(Ok(processes)),
                    decreases items.len() - i,
                {
                    proof {
                        lemma_collect_step(results, i as int);
                        assert(results[i as int] == decode_process(items@[i as int]@));
                    }
                    match Process::from_json(&items[i]) {
                        Ok(p) => {
                            let ghost before = processes@;
                            processes.push(p);
                            assert(process_views(processes@) =~= process_views(before).push(p@));
                        },
                        Err(e) => {
                            proof {
                                lemma_collect_fault(results, i + 1);
                            }
                            return Err(e);
                        },
                    }
                    i += 1;
                }
                proof {
                    assert(results.take(i as int) =~= results);
                }
                Ok(processes)
            },
            _ => Err(ParseError::Mismatch),
        }
    }

    /// Reads a configuration from its document. The document is accepted as
    /// a whole or not at all.
    pub fn from_json(j: &Json) -> (r: Result<Configuration, ParseError>)
        ensures
            viewed(r) == decode_configuration(j@),
    {
        match Configuration::processes_from_json(j) {
            Ok(process) => Ok(Configuration { process }),
            Err(e) => Err(e),
        }
    }

    /// The document of the configuration.
    pub fn to_json(&self) -> (j: Json)
        ensures
            j@ == encode_configuration(self@),
    {
        let mut items: Vec<Json> = Vec::new();
        let mut i: usize = 0;
        while i < self.process.len()
            invariant
                i <= self.process.len(),
                items@.len() == i,
                item_views(items@) == encode_processes(self@.process.take(i as int)),
            decreases self.process.len() - i,
        {
            let ghost before = items@;
            items.push(self.process[i].to_json());
            proof {
                assert forall|k: int| 0 <= k < i implies item_views(items@)[k] == encode_processes(
                    self@.process.take(i + 1),
                )[k] by {
                    assert(items@[k] == before[k]);
                    assert(item_views(before)[k] == encode_processes(
                        self@.process.take(i as int),
                    )[k]);
                }
                assert(item_views(items@) =~= encode_processes(self@.process.take(i + 1)));
            }
            i += 1;
        }
        proof {
            assert(self@.process.take(i as int) =~= self@.process);
        }
        Json::Array(items)
    }

    /// Reads a configuration from JSON text. The text is accepted as a whole
    /// or not at all.
    pub fn new(s: &str) -> (r: Result<Configuration, ParseError>)
        ensures
            viewed(r) == configuration_of_text(s@),
    {
        match Json::parse(s) {
            Ok(tree) => Configuration::from_json(&tree),
            Err(e) => Err(e),
        }
    }

    /// Reads the processes of a configuration from JSON text.
    pub fn load_str(s: &str) -> (r: Result<Vec<Process>, ParseError>)
        ensures
            listed_processes(r) == processes_of_text(s@),
    {
        match Json::parse(s) {
            Ok(tree) => Configuration::processes_from_json(&tree),
            Err(e) => Err(e),
        }
    }

    /// The indented JSON text under which the configuration is stored, for
    /// the caller to write to a file. The text is read back before it is
    /// handed out: what is returned stands for this configuration, field for
    /// field. `WriteError` where no text can be made, or where the text
    /// that was made does not read back as this configuration.
    pub fn save(&self) -> (r: Result<String, ConfigurationError>)
        ensures
            match r {
                Ok(text) => text_of_json(encode_configuration(self@)) == Some(text@)
                    && configuration_of_text(text@) == Ok::<ConfigurationView, ParseError>(self@),
                Err(e) => e == ConfigurationError::WriteError && match text_of_json(
                    encode_configuration(self@),
                ) {
                    Some(text) => configuration_of_text(text) != Ok::<
                        ConfigurationView,
                        ParseError,
                    >(self@),
                    None => true,
                },
            },
    {
        match self.to_json().to_text() {
            Some(text) => match Configuration::new(text.as_str()) {
                Ok(back) => if back == *self {
                    Ok(text)
                } else {
                    Err(ConfigurationError::WriteError)
                },
                Err(_) => Err(ConfigurationError::WriteError),
            },
            None => Err(ConfigurationError::WriteError),
        }
    }
}

} // verus!
