//! What range responses add up to: requests that walk through a file, each
//! starting where the last response ended, get the file back.

use vstd::prelude::*;
use crate::stream::{
    body_bytes,
    clamped_end,
    is_satisfiable,
    planned,
    satisfiable,
    single_response,
    unanswerable,
    BodyPartView,
    MAX_LEN,
    RangeRequestView,
};

verus! {

/// The body of the response to a request for one range of the file, given by
/// its start and length.
pub open spec fn served(file: Seq<u8>, mime: Seq<char>, range: (u64, u64), n: u64) -> Seq<u8> {
    body_bytes(
        planned(mime, file.len() as u64, RangeRequestView::Ranges(seq![range]), n).body,
        file,
    )
}

/// The bodies of the responses to the requests, one after the other.
pub open spec fn served_all(file: Seq<u8>, mime: Seq<char>, requests: Seq<(u64, u64)>, n: u64)
    -> Seq<u8>
    decreases requests.len(),
{
    if requests.len() == 0 {
        Seq::empty()
    } else {
        served_all(file, mime, requests.drop_last(), n) + served(file, mime, requests.last(), n)
    }
}

/// The requests walk through a file of `len` bytes: the first starts at byte
/// 0, each lies within the file, and each but the first starts right after
/// the last byte that was served for the one before.
pub open spec fn walks(requests: Seq<(u64, u64)>, len: u64) -> bool {
    &&& requests.len() > 0
    &&& requests[0].0 == 0
    &&& forall|i: int|
        0 <= i < requests.len() ==> is_satisfiable((#[trigger] requests[i]).0, requests[i].1, len)
    &&& forall|i: int|
        0 < i < requests.len() ==> (#[trigger] requests[i]).0 == clamped_end(
            requests[i - 1].0,
            requests[i - 1].1,
        ) + 1
}

/// The requests walk through the whole file: the last byte served for the
/// last request is the last byte of the file.
pub open spec fn covers(requests: Seq<(u64, u64)>, len: u64) -> bool {
    walks(requests, len) && clamped_end(requests.last().0, requests.last().1) == len - 1
}

/// A request for one range within the file is answered with status 206 and
/// exactly the bytes of the range, or the first `MAX_LEN` of them.
pub proof fn single_range_is_served(file: Seq<u8>, mime: Seq<char>, range: (u64, u64), n: u64)
    requires
        file.len() <= u64::MAX,
        is_satisfiable(range.0, range.1, file.len() as u64),
    ensures
        planned(mime, file.len() as u64, RangeRequestView::Ranges(seq![range]), n).status == 206,
        served(file, mime, range, n) == file.subrange(
            range.0 as int,
            clamped_end(range.0, range.1) + 1,
        ),
        range.0 <= clamped_end(range.0, range.1) < file.len(),
{
    let len = file.len() as u64;
    let keep = |r: (u64, u64)| is_satisfiable(r.0, r.1, len);
    let one = seq![range];
    reveal_with_fuel(Seq::filter, 2);
    assert(one.drop_last() =~= Seq::<(u64, u64)>::empty());
    assert(one.filter(keep) =~= one);
    let serve = satisfiable(one, len);
    assert(serve =~= seq![(range.0, clamped_end(range.0, range.1) as u64)]);
    let body = single_response(mime, serve[0], len).body;
    reveal_with_fuel(body_bytes, 2);
    assert(body.drop_last() =~= Seq::<BodyPartView>::empty());
    assert(body_bytes(body, file) =~= file.subrange(
        range.0 as int,
        clamped_end(range.0, range.1) + 1,
    ));
}

proof fn lemma_walk(file: Seq<u8>, mime: Seq<char>, requests: Seq<(u64, u64)>, n: u64)
    requires
        file.len() <= u64::MAX,
        walks(requests, file.len() as u64),
    ensures
        served_all(file, mime, requests, n) == file.subrange(
            0,
            clamped_end(requests.last().0, requests.last().1) + 1,
        ),
    decreases requests.len(),
{
    let last = requests.last();
    let init = requests.drop_last();
    assert(requests[requests.len() - 1] == last);
    single_range_is_served(file, mime, last, n);
    if requests.len() == 1 {
        assert(init =~= Seq::<(u64, u64)>::empty());
        assert(served_all(file, mime, init, n) =~= Seq::<u8>::empty());
        assert(served_all(file, mime, requests, n) =~= served(file, mime, last, n));
    } else {
        assert(init[0] == requests[0]);
        assert forall|i: int| 0 <= i < init.len() implies is_satisfiable(
            (#[trigger] init[i]).0,
            init[i].1,
            file.len() as u64,
        ) by {
            assert(init[i] == requests[i]);
        }
        assert forall|i: int| 0 < i < init.len() implies (#[trigger] init[i]).0 == clamped_end(
            init[i - 1].0,
            init[i - 1].1,
        ) + 1 by {
            assert(init[i] == requests[i]);
            assert(init[i - 1] == requests[i - 1]);
        }
        lemma_walk(file, mime, init, n);
        assert(init.last() == requests[requests.len() - 2]);
        assert(served_all(file, mime, requests, n) =~= file.subrange(
            0,
            clamped_end(last.0, last.1) + 1,
        ));
    }
}

/// Single-range requests that walk through the whole file rebuild it: their
/// response bodies, one after the other, are the file.
pub proof fn covering_ranges_rebuild_file(
    file: Seq<u8>,
    mime: Seq<char>,
    requests: Seq<(u64, u64)>,
    n: u64,
)
    requires
        file.len() <= u64::MAX,
        covers(requests, file.len() as u64),
    ensures
        served_all(file, mime, requests, n) == file,
{
    lemma_walk(file, mime, requests, n);
    assert(file.subrange(0, file.len() as int) =~= file);
}

/// Status 416 is given exactly where ranges are asked for and none can be
/// served.
pub proof fn unsatisfiable_iff_nothing_to_serve(
    mime: Seq<char>,
    len: u64,
    request: RangeRequestView,
    n: u64,
)
    ensures
        planned(mime, len, request, n).status == 416 <==> unanswerable(request, len),
{
}

} // verus!
