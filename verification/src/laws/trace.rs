//! What reading the fingerprint trace promises for every trace.

use vstd::prelude::*;

use crate::parse::fingerprint;

verus! {

/// Details in front of any header are dropped: they belong to no crate.
pub proof fn law_details_need_a_header(lines: Seq<Seq<char>>, id: Seq<char>)
    requires
        forall|i: int|
            0 <= i < lines.len() ==> fingerprint::header_id(
                fingerprint::message(#[trigger] lines[i]),
            ) is None,
    ensures
        fingerprint::named_by_header(lines) is None,
        fingerprint::details_for(lines, id) == Seq::<Seq<char>>::empty(),
    decreases lines.len(),
{
    if lines.len() > 0 {
        let above = lines.drop_last();
        assert forall|i: int| 0 <= i < above.len() implies fingerprint::header_id(
            fingerprint::message(#[trigger] above[i]),
        ) is None by {
            assert(above[i] == lines[i]);
        }
        law_details_need_a_header(above, id);
        assert(lines[lines.len() - 1] == lines.last());
    }
}

/// A detail belongs to the crate that the last header above it names, whatever stands between
/// the two: that crate gains it, and no other crate does.
pub proof fn law_detail_belongs_to_its_header(
    lines: Seq<Seq<char>>,
    header: Seq<char>,
    between: Seq<Seq<char>>,
    line: Seq<char>,
    id: Seq<char>,
)
    requires
        fingerprint::header_id(fingerprint::message(header)) is Some,
        forall|i: int|
            0 <= i < between.len() ==> fingerprint::header_id(
                fingerprint::message(#[trigger] between[i]),
            ) is None,
        fingerprint::header_id(fingerprint::message(line)) is None,
        fingerprint::detail_in(fingerprint::message(line)) is Some,
    ensures
        ({
            let above = lines.push(header) + between;
            let before = fingerprint::details_for(above, id);
            fingerprint::details_for(above.push(line), id) == if fingerprint::header_id(
                fingerprint::message(header),
            ) == Some(id) {
                before.push(fingerprint::detail_in(fingerprint::message(line))->0)
            } else {
                before
            }
        }),
{
    let above = lines.push(header) + between;
    lemma_header_reaches(lines, header, between);
    assert(above.push(line).drop_last() =~= above);
}

/// A header holds until the next one.
proof fn lemma_header_reaches(
    lines: Seq<Seq<char>>,
    header: Seq<char>,
    between: Seq<Seq<char>>,
)
    requires
        fingerprint::header_id(fingerprint::message(header)) is Some,
        forall|i: int|
            0 <= i < between.len() ==> fingerprint::header_id(
                fingerprint::message(#[trigger] between[i]),
            ) is None,
    ensures
        fingerprint::named_by_header(lines.push(header) + between) == fingerprint::header_id(
            fingerprint::message(header),
        ),
    decreases between.len(),
{
    let whole = lines.push(header) + between;
    if between.len() == 0 {
        assert(whole =~= lines.push(header));
    } else {
        let fewer = between.drop_last();
        assert(whole.drop_last() =~= lines.push(header) + fewer);
        assert(whole.last() == between[between.len() - 1]);
        lemma_header_reaches(lines, header, fewer);
    }
}

/// A line that is neither a header nor a recognised detail changes no details: when the wording
/// of the trace changes, details go missing rather than becoming wrong.
pub proof fn law_unrecognised_lines_are_ignored(
    lines: Seq<Seq<char>>,
    line: Seq<char>,
    id: Seq<char>,
)
    requires
        fingerprint::header_id(fingerprint::message(line)) is None,
        fingerprint::detail_in(fingerprint::message(line)) is None,
    ensures
        fingerprint::details_for(lines.push(line), id) == fingerprint::details_for(lines, id),
        fingerprint::named_by_header(lines.push(line)) == fingerprint::named_by_header(lines),
{
    assert(lines.push(line).drop_last() =~= lines);
}

/// A trace that begins with a header stands on its own: behind another trace it adds its own
/// details to those before it, and changes none of them.
pub proof fn law_details_of_joined_traces(
    first: Seq<Seq<char>>,
    second: Seq<Seq<char>>,
    id: Seq<char>,
)
    requires
        second.len() > 0,
        fingerprint::header_id(fingerprint::message(second[0])) is Some,
    ensures
        fingerprint::details_for(first + second, id) == fingerprint::details_for(first, id)
            + fingerprint::details_for(second, id),
        fingerprint::named_by_header(first + second) == fingerprint::named_by_header(second),
    decreases second.len(),
{
    let whole = first + second;
    let above = second.drop_last();
    let held = fingerprint::details_for(first, id);
    assert(whole.drop_last() =~= first + above);
    assert(whole.last() == second.last());
    if above.len() == 0 {
        assert(first + above =~= first);
        assert(second.last() == second[0]);
        assert(fingerprint::details_for(above, id) == Seq::<Seq<char>>::empty());
        assert(held + fingerprint::details_for(second, id) =~= held);
    } else {
        assert(above[0] == second[0]);
        law_details_of_joined_traces(first, above, id);
        assert(fingerprint::details_for(whole, id) =~= held + fingerprint::details_for(second, id));
    }
}

} // verus!
