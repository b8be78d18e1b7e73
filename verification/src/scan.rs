//! The scan of a body as a whole: what it is, line after line, and what holds of every scan.

use crate::processor::{
    continues, start_line, step, type_of_line, unit_id, Line, LineType, ProcessError,
};
use crate::tacview::{color_of, has_color_marker, registered, Coalition, ThirdName};
use vstd::prelude::*;

verus! {

/// The scan of the first `n` lines of `body`: the last of them as it was read, and the registry
/// after it; or the error of the first line that could not be read.
pub open spec fn scan(body: Seq<Seq<char>>, n: nat, third: ThirdName) -> Result<
    (Line, Map<Seq<char>, Coalition>),
    ProcessError,
>
    decreases n,
{
    if n == 0 {
        Ok((start_line(), Map::empty()))
    } else {
        match scan(body, (n - 1) as nat, third) {
            Ok((previous, ids)) => step(previous, body[n - 1], ids, third),
            Err(e) => Err(e),
        }
    }
}

/// Line `i` of `body` as the scan reads it.
pub open spec fn line_at(body: Seq<Seq<char>>, i: int, third: ThirdName) -> Line
    recommends
        0 <= i < body.len(),
        scan(body, (i + 1) as nat, third) is Ok,
{
    match scan(body, (i + 1) as nat, third) {
        Ok((line, _)) => line,
        Err(_) => start_line(),
    }
}

/// The registry after the first `n` lines of `body`.
pub open spec fn registry_after(body: Seq<Seq<char>>, n: nat, third: ThirdName) -> Map<
    Seq<char>,
    Coalition,
>
    recommends
        n <= body.len(),
        scan(body, n, third) is Ok,
{
    match scan(body, n, third) {
        Ok((_, ids)) => ids,
        Err(_) => Map::empty(),
    }
}

/// The coalition of every line of `body`, in order; or the error of the first line that could
/// not be read.
pub open spec fn partition(body: Seq<Seq<char>>, third: ThirdName) -> Result<
    Seq<Coalition>,
    ProcessError,
> {
    match scan(body, body.len(), third) {
        Ok(_) => Ok(Seq::new(body.len(), |i: int| line_at(body, i, third).coalition)),
        Err(e) => Err(e),
    }
}

/// A scan that has failed stays failed, with the same error, however many lines follow.
pub proof fn lemma_scan_error_stays(body: Seq<Seq<char>>, m: nat, n: nat, third: ThirdName)
    requires
        m <= n,
        scan(body, m, third) is Err,
    ensures
        scan(body, n, third) == scan(body, m, third),
    decreases n,
{
    if m < n {
        lemma_scan_error_stays(body, m, (n - 1) as nat, third);
    }
}

/// A scan that has come through `n` lines has come through every number of lines before.
pub proof fn lemma_scan_ok_before(body: Seq<Seq<char>>, m: nat, n: nat, third: ThirdName)
    requires
        m <= n,
        scan(body, n, third) is Ok,
    ensures
        scan(body, m, third) is Ok,
{
    if scan(body, m, third) is Err {
        lemma_scan_error_stays(body, m, n, third);
    }
}

/// A line that was read has a known type, and it is continued exactly when its text ends with a
/// backslash.
pub proof fn lemma_line_read(body: Seq<Seq<char>>, i: int, third: ThirdName)
    requires
        0 <= i < body.len(),
        scan(body, (i + 1) as nat, third) is Ok,
    ensures
        line_at(body, i, third).line_type != LineType::Unknown,
        line_at(body, i, third).continued == continues(body[i]),
{
}

/// A line goes to all coalitions exactly when it is a timestamp or global data.
pub open spec fn labelled_by_type(line: Line) -> bool {
    line.coalition == Coalition::All <==> (line.line_type == LineType::Timestamp || line.line_type
        == LineType::ArbitraryData)
}

/// No identifier is registered with `All`.
pub open spec fn registers_sides_only(ids: Map<Seq<char>, Coalition>) -> bool {
    forall|id: Seq<char>| #[trigger] ids.contains_key(id) ==> ids[id] != Coalition::All
}

/// One step of the scan labels a line by its type and registers no identifier with `All`, if
/// that held before.
pub proof fn lemma_step_labels_by_type(
    previous: Line,
    line: Seq<char>,
    ids: Map<Seq<char>, Coalition>,
    third: ThirdName,
)
    requires
        previous.continued ==> labelled_by_type(previous),
        registers_sides_only(ids),
    ensures
        step(previous, line, ids, third) matches Ok((read, after)) ==> labelled_by_type(read)
            && registers_sides_only(after),
{
}

/// Timestamps and global data go to all coalitions, and so do the lines that continue them;
/// telemetry and destruction lines, and the lines that continue them, go to one coalition or to
/// none. No identifier is ever registered with `All`.
pub proof fn lemma_label_by_type(body: Seq<Seq<char>>, i: int, third: ThirdName)
    requires
        0 <= i < body.len(),
        scan(body, (i + 1) as nat, third) is Ok,
    ensures
        labelled_by_type(line_at(body, i, third)),
        registers_sides_only(registry_after(body, (i + 1) as nat, third)),
    decreases i,
{
    lemma_scan_ok_before(body, i as nat, (i + 1) as nat, third);
    if i > 0 {
        lemma_label_by_type(body, i - 1, third);
    }
    let (previous, ids) = scan(body, i as nat, third)->Ok_0;
    lemma_step_labels_by_type(previous, body[i], ids, third);
}

/// There is one label for each line of the body.
pub proof fn lemma_partition_len(body: Seq<Seq<char>>, third: ThirdName)
    ensures
        partition(body, third) matches Ok(labels) ==> labels.len() == body.len(),
{
}

/// `outcome` is what labelling `body` comes to: its labels, or the error of its first line that
/// cannot be read.
pub open spec fn is_partition_of(
    body: Seq<Seq<char>>,
    third: ThirdName,
    outcome: Result<Vec<Coalition>, ProcessError>,
) -> bool {
    match outcome {
        Ok(labels) => partition(body, third) == Ok::<Seq<Coalition>, ProcessError>(labels@),
        Err(e) => partition(body, third) == Err::<Seq<Coalition>, ProcessError>(e),
    }
}

/// Labelling the same body twice ends alike: with the same labels, or with the same error.
pub proof fn lemma_partition_repeats(
    body: Seq<Seq<char>>,
    third: ThirdName,
    first: Result<Vec<Coalition>, ProcessError>,
    second: Result<Vec<Coalition>, ProcessError>,
)
    requires
        is_partition_of(body, third, first),
        is_partition_of(body, third, second),
    ensures
        match (first, second) {
            (Ok(a), Ok(b)) => a@ == b@,
            (Err(a), Err(b)) => a == b,
            _ => false,
        },
{
}

/// A line that follows a continued line has that line's type and coalition, whatever its own
/// text, and leaves the registry as it was.
pub proof fn lemma_continuation_inherits(body: Seq<Seq<char>>, i: int, third: ThirdName)
    requires
        0 <= i,
        i + 1 < body.len(),
        scan(body, (i + 2) as nat, third) is Ok,
        continues(body[i]),
    ensures
        line_at(body, i + 1, third).line_type == line_at(body, i, third).line_type,
        line_at(body, i + 1, third).coalition == line_at(body, i, third).coalition,
        registry_after(body, (i + 2) as nat, third) == registry_after(
            body,
            (i + 1) as nat,
            third,
        ),
{
    lemma_scan_ok_before(body, (i + 1) as nat, (i + 2) as nat, third);
    lemma_line_read(body, i, third);
}

/// Offering a registered identifier again, with whatever coalition, changes nothing: the first
/// registration stands.
pub proof fn lemma_first_registration_stands(
    ids: Map<Seq<char>, Coalition>,
    id: Seq<char>,
    first: Coalition,
    later: Coalition,
)
    ensures
        registered(ids, id, first).contains_key(id),
        registered(registered(ids, id, first), id, later) == registered(ids, id, first),
{
}

/// One step of the scan leaves every registered identifier with its coalition.
pub proof fn lemma_step_keeps_registry(
    previous: Line,
    line: Seq<char>,
    ids: Map<Seq<char>, Coalition>,
    third: ThirdName,
)
    ensures
        step(previous, line, ids, third) matches Ok((_, after)) ==> ids.submap_of(after),
{
}

/// The registry only grows during a scan: an identifier that is registered after `m` lines is
/// registered with the same coalition after every later line.
pub proof fn lemma_registry_grows(body: Seq<Seq<char>>, m: nat, n: nat, third: ThirdName)
    requires
        m <= n <= body.len(),
        scan(body, n, third) is Ok,
    ensures
        registry_after(body, m, third).submap_of(registry_after(body, n, third)),
    decreases n,
{
    if m < n {
        lemma_scan_ok_before(body, (n - 1) as nat, n, third);
        lemma_registry_grows(body, m, (n - 1) as nat, third);
        let (previous, ids) = scan(body, (n - 1) as nat, third)->Ok_0;
        lemma_step_keeps_registry(previous, body[n - 1], ids, third);
        let first = registry_after(body, m, third);
        let last = registry_after(body, n, third);
        assert(first.submap_of(ids));
        assert(ids.submap_of(last));
        assert forall|id: Seq<char>| #[trigger]
            first.dom().contains(id) implies last.dom().contains(id) && first[id] == last[id] by {
            assert(ids.dom().contains(id));
        }
    }
}

/// The unit that line `i` of `body` speaks of, where the line is read by its content: where it
/// continues no other line and is a telemetry or destruction line that names a unit.
pub open spec fn unit_at(body: Seq<Seq<char>>, i: int, third: ThirdName) -> Option<Seq<char>>
    recommends
        0 <= i < body.len(),
{
    if i > 0 && line_at(body, i - 1, third).continued {
        None
    } else {
        match type_of_line(body[i]) {
            Ok(LineType::Telemetry) => unit_id(body[i], LineType::Telemetry),
            Ok(LineType::Destruction) => unit_id(body[i], LineType::Destruction),
            _ => None,
        }
    }
}

/// The first line of a unit that carries a colour decides for the rest of the scan. Let line
/// `i` speak of a unit that is not registered yet, and carry a colour. Then every later line `j`
/// that speaks of the unit finds it registered with the coalition of that colour; a line `j`
/// without a colour has that coalition, and one with a colour has the coalition of its own
/// colour and changes nothing in the registry.
pub proof fn lemma_first_colour_decides(
    body: Seq<Seq<char>>,
    i: int,
    j: int,
    id: Seq<char>,
    third: ThirdName,
)
    requires
        0 <= i < j < body.len(),
        scan(body, (j + 1) as nat, third) is Ok,
        unit_at(body, i, third) == Some(id),
        has_color_marker(body[i]),
        !registry_after(body, i as nat, third).contains_key(id),
        unit_at(body, j, third) == Some(id),
    ensures
        registry_after(body, j as nat, third).contains_key(id),
        registry_after(body, j as nat, third)[id] == color_of(body[i], third),
        registry_after(body, (j + 1) as nat, third) == registry_after(body, j as nat, third),
        line_at(body, j, third).coalition == if has_color_marker(body[j]) {
            color_of(body[j], third)
        } else {
            color_of(body[i], third)
        },
{
    lemma_scan_ok_before(body, j as nat, (j + 1) as nat, third);
    lemma_scan_ok_before(body, (i + 1) as nat, j as nat, third);
    lemma_scan_ok_before(body, i as nat, (i + 1) as nat, third);
    let after_first = registry_after(body, (i + 1) as nat, third);
    assert(after_first.contains_key(id) && after_first[id] == color_of(body[i], third));
    lemma_registry_grows(body, (i + 1) as nat, j as nat, third);
    let before_later = registry_after(body, j as nat, third);
    assert(before_later.dom().contains(id));
}

} // verus!
