//! The labels that the samples of a scope carry.
use crate::decimal::{decimal, decimal_text};
use crate::exposition::{labels_view, Label};
use vstd::prelude::*;

verus! {

/// The labels of a scope.
pub open spec fn scope_labels(chain_id: Seq<char>, dataset: Seq<char>) -> Seq<Label> {
    seq![("chain_id"@, chain_id), ("dataset"@, dataset)]
}

/// The labels of a scope and of a result in it.
pub open spec fn scope_result_labels(
    chain_id: Seq<char>,
    dataset: Seq<char>,
    result: Seq<char>,
) -> Seq<Label> {
    scope_labels(chain_id, dataset).push(("result"@, result))
}

/// The labels of a scope and of a stage in it.
pub open spec fn scope_stage_labels(
    chain_id: Seq<char>,
    dataset: Seq<char>,
    stage: Seq<char>,
) -> Seq<Label> {
    scope_labels(chain_id, dataset).push(("stage"@, stage))
}

/// The labels of a scope and of the result of an operation in it.
pub open spec fn scope_operation_labels(
    chain_id: Seq<char>,
    dataset: Seq<char>,
    operation: Seq<char>,
    result: Seq<char>,
) -> Seq<Label> {
    scope_labels(chain_id, dataset).push(("operation"@, operation)).push(("result"@, result))
}

/// The labels of a chain and a dataset on it, given as text.
pub fn text_labels(chain_id: &String, dataset: &String) -> (labels: Vec<(&'static str, String)>)
    ensures
        labels_view(labels@) == scope_labels(chain_id@, dataset@),
{
    let labels = vec![("chain_id", chain_id.clone()), ("dataset", dataset.clone())];
    assert(labels_view(labels@) =~= scope_labels(chain_id@, dataset@));
    labels
}

/// The labels of a scope.
pub fn runtime_labels(chain_id: u64, dataset: &str) -> (labels: Vec<(&'static str, String)>)
    ensures
        labels_view(labels@) == scope_labels(decimal(chain_id as nat), dataset@),
{
    let labels = vec![("chain_id", decimal_text(chain_id)), ("dataset", dataset.to_owned())];
    assert(labels_view(labels@) =~= scope_labels(decimal(chain_id as nat), dataset@));
    labels
}

/// The labels of a scope and of a result in it.
pub fn result_labels(chain_id: u64, dataset: &str, result: &str) -> (labels: Vec<
    (&'static str, String),
>)
    ensures
        labels_view(labels@) == scope_result_labels(decimal(chain_id as nat), dataset@, result@),
{
    let mut labels = runtime_labels(chain_id, dataset);
    let ghost shorter = labels@;
    labels.push(("result", result.to_owned()));
    assert(labels_view(labels@) =~= labels_view(shorter).push(("result"@, result@)));
    labels
}

/// The labels of a scope and of a stage in it.
pub fn stage_labels(chain_id: u64, dataset: &str, stage: &str) -> (labels: Vec<
    (&'static str, String),
>)
    ensures
        labels_view(labels@) == scope_stage_labels(decimal(chain_id as nat), dataset@, stage@),
{
    let mut labels = runtime_labels(chain_id, dataset);
    let ghost shorter = labels@;
    labels.push(("stage", stage.to_owned()));
    assert(labels_view(labels@) =~= labels_view(shorter).push(("stage"@, stage@)));
    labels
}

/// The labels of a scope and of the result of an operation in it.
pub fn operation_result_labels(
    chain_id: u64,
    dataset: &str,
    operation: &str,
    result: &str,
) -> (labels: Vec<(&'static str, String)>)
    ensures
        labels_view(labels@) == scope_operation_labels(
            decimal(chain_id as nat),
            dataset@,
            operation@,
            result@,
        ),
{
    let mut labels = runtime_labels(chain_id, dataset);
    let ghost shorter = labels@;
    labels.push(("operation", operation.to_owned()));
    labels.push(("result", result.to_owned()));
    assert(labels_view(labels@) =~= labels_view(shorter).push(("operation"@, operation@)).push(
        ("result"@, result@),
    ));
    labels
}

} // verus!
