//! Which lines of the body go to the output of which coalition.

use crate::tacview::Coalition;
use vstd::prelude::*;

verus! {

/// A line labelled `label` goes to the output of `coalition` when it belongs to that coalition
/// or to all.
pub open spec fn goes_to(label: Coalition, coalition: Coalition) -> bool {
    label == coalition || label == Coalition::All
}

/// The positions among the first `n` lines whose labels send them to the output of `coalition`,
/// in rising order.
pub open spec fn selected_indices(labels: Seq<Coalition>, coalition: Coalition, n: nat) -> Seq<int>
    recommends
        n <= labels.len(),
    decreases n,
{
    if n == 0 {
        Seq::empty()
    } else if goes_to(labels[n - 1], coalition) {
        selected_indices(labels, coalition, (n - 1) as nat).push(n - 1)
    } else {
        selected_indices(labels, coalition, (n - 1) as nat)
    }
}

/// The lines among the first `n` of `lines` that go to the output of `coalition`, in their
/// order.
pub open spec fn selected_among(
    lines: Seq<Seq<char>>,
    labels: Seq<Coalition>,
    coalition: Coalition,
    n: nat,
) -> Seq<Seq<char>>
    recommends
        n <= lines.len() == labels.len(),
{
    selected_indices(labels, coalition, n).map_values(|i: int| lines[i])
}

/// The lines of `lines` that go to the output of `coalition`, in their order.
pub open spec fn selected_lines(
    lines: Seq<Seq<char>>,
    labels: Seq<Coalition>,
    coalition: Coalition,
) -> Seq<Seq<char>>
    recommends
        lines.len() == labels.len(),
{
    selected_among(lines, labels, coalition, lines.len())
}

/// What the output of `coalition` holds: the header, then the lines of the body that go to it.
pub open spec fn output_of(
    header: Seq<Seq<char>>,
    body: Seq<Seq<char>>,
    labels: Seq<Coalition>,
    coalition: Coalition,
) -> Seq<Seq<char>>
    recommends
        body.len() == labels.len(),
{
    header + selected_lines(body, labels, coalition)
}

/// The selected positions are positions of lines that go to the coalition, they rise, and none
/// such is left out.
pub proof fn lemma_selected_indices(labels: Seq<Coalition>, coalition: Coalition, n: nat)
    requires
        n <= labels.len(),
    ensures
        forall|k: int|
            0 <= k < selected_indices(labels, coalition, n).len() ==> {
                let i = #[trigger] selected_indices(labels, coalition, n)[k];
                0 <= i < n && goes_to(labels[i], coalition)
            },
        forall|j: int, k: int|
            0 <= j < k < selected_indices(labels, coalition, n).len() ==> selected_indices(
                labels,
                coalition,
                n,
            )[j] < selected_indices(labels, coalition, n)[k],
        forall|i: int|
            0 <= i < n && goes_to(#[trigger] labels[i], coalition) ==> selected_indices(
                labels,
                coalition,
                n,
            ).contains(i),
        selected_indices(labels, coalition, n).len() <= n,
    decreases n,
{
    if n > 0 {
        let before = selected_indices(labels, coalition, (n - 1) as nat);
        let now = selected_indices(labels, coalition, n);
        lemma_selected_indices(labels, coalition, (n - 1) as nat);
        assert forall|i: int|
            0 <= i < n && goes_to(#[trigger] labels[i], coalition) implies now.contains(i) by {
            if i < n - 1 {
                let k = choose|k: int| 0 <= k < before.len() && before[k] == i;
                assert(now[k] == i);
            } else {
                assert(now[now.len() - 1] == i);
            }
        }
    }
}

/// The lines selected among the first `m` are the first of those selected among the first `n`,
/// for `m` up to `n`.
pub proof fn lemma_selected_grows(
    lines: Seq<Seq<char>>,
    labels: Seq<Coalition>,
    coalition: Coalition,
    m: nat,
    n: nat,
)
    requires
        m <= n <= lines.len() == labels.len(),
    ensures
        selected_among(lines, labels, coalition, m).len() <= selected_among(
            lines,
            labels,
            coalition,
            n,
        ).len(),
        selected_among(lines, labels, coalition, m) == selected_among(
            lines,
            labels,
            coalition,
            n,
        ).take(selected_among(lines, labels, coalition, m).len() as int),
    decreases n,
{
    if m < n {
        lemma_selected_grows(lines, labels, coalition, m, (n - 1) as nat);
    }
    assert(selected_among(lines, labels, coalition, m) =~= selected_among(
        lines,
        labels,
        coalition,
        n,
    ).take(selected_among(lines, labels, coalition, m).len() as int));
}

/// A line that goes to the coalition follows those selected before it.
pub proof fn lemma_selected_push(
    lines: Seq<Seq<char>>,
    labels: Seq<Coalition>,
    coalition: Coalition,
    n: nat,
)
    requires
        n < lines.len() == labels.len(),
    ensures
        selected_among(lines, labels, coalition, n + 1) == if goes_to(labels[n as int], coalition) {
            selected_among(lines, labels, coalition, n).push(lines[n as int])
        } else {
            selected_among(lines, labels, coalition, n)
        },
{
    if goes_to(labels[n as int], coalition) {
        assert(selected_among(lines, labels, coalition, n + 1) =~= selected_among(
            lines,
            labels,
            coalition,
            n,
        ).push(lines[n as int]));
    }
}

/// The output of a coalition begins with the header, line for line, and goes on with the lines
/// that were selected for it.
pub proof fn lemma_output_begins_with_header(
    header: Seq<Seq<char>>,
    body: Seq<Seq<char>>,
    labels: Seq<Coalition>,
    coalition: Coalition,
)
    ensures
        output_of(header, body, labels, coalition).len() >= header.len(),
        output_of(header, body, labels, coalition).take(header.len() as int) == header,
        output_of(header, body, labels, coalition).skip(header.len() as int) == selected_lines(
            body,
            labels,
            coalition,
        ),
{
    let output = output_of(header, body, labels, coalition);
    assert(output.take(header.len() as int) =~= header);
    assert(output.skip(header.len() as int) =~= selected_lines(body, labels, coalition));
}

/// The lines selected for a coalition are exactly the lines of the body whose label is that
/// coalition or `All`, in the order of the body: line `k` of the selection is the line of the
/// body at the `k`th selected position, the selected positions rise, each holds a line that goes
/// to the coalition, and every such line is at one of them.
pub proof fn lemma_selected_lines_exact(
    lines: Seq<Seq<char>>,
    labels: Seq<Coalition>,
    coalition: Coalition,
)
    requires
        lines.len() == labels.len(),
    ensures
        selected_lines(lines, labels, coalition).len() == selected_indices(
            labels,
            coalition,
            lines.len(),
        ).len(),
        forall|k: int|
            0 <= k < selected_lines(lines, labels, coalition).len() ==> {
                let i = selected_indices(labels, coalition, lines.len())[k];
                &&& 0 <= i < lines.len()
                &&& goes_to(labels[i], coalition)
                &&& #[trigger] selected_lines(lines, labels, coalition)[k] == lines[i]
            },
        forall|j: int, k: int|
            0 <= j < k < selected_indices(labels, coalition, lines.len()).len()
                ==> selected_indices(labels, coalition, lines.len())[j] < selected_indices(
                labels,
                coalition,
                lines.len(),
            )[k],
        forall|i: int|
            0 <= i < lines.len() && goes_to(#[trigger] labels[i], coalition) ==> selected_indices(
                labels,
                coalition,
                lines.len(),
            ).contains(i),
{
    lemma_selected_indices(labels, coalition, lines.len());
}

/// A line whose coalition is unknown is selected for none of the three coalitions.
pub proof fn lemma_unknown_lines_dropped(labels: Seq<Coalition>, coalition: Coalition, i: int)
    requires
        0 <= i < labels.len(),
        labels[i] == Coalition::Unknown,
        coalition == Coalition::Blue || coalition == Coalition::Red || coalition
            == Coalition::Violet,
    ensures
        !selected_indices(labels, coalition, labels.len()).contains(i),
{
    lemma_selected_indices(labels, coalition, labels.len());
}

} // verus!
