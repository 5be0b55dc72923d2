//! The span of zoom levels that a run has stored tiles at.

use vstd::prelude::*;

verus! {

/// Lowest and highest zoom level seen, or `None` before the first.
pub type Span = Option<(u8, u8)>;

/// The span after one more tile, at `zoom`.
pub open spec fn widened(span: Span, zoom: u8) -> Span {
    match span {
        None => Some((zoom, zoom)),
        Some((low, high)) => Some(
            (
                if zoom < low {
                    zoom
                } else {
                    low
                },
                if zoom > high {
                    zoom
                } else {
                    high
                },
            ),
        ),
    }
}

/// The span after more tiles, at `zooms` in that order.
pub open spec fn widened_by(span: Span, zooms: Seq<u8>) -> Span
    decreases zooms.len(),
{
    if zooms.len() == 0 {
        span
    } else {
        widened_by(widened(span, zooms[0]), zooms.drop_first())
    }
}

/// The span of a run that stored tiles at `zooms`.
pub open spec fn span_of(zooms: Seq<u8>) -> Span {
    widened_by(None, zooms)
}

/// Whether `zoom` lies within `span`.
pub open spec fn covers(span: Span, zoom: u8) -> bool {
    span matches Some((low, high)) && low <= zoom <= high
}

/// Whether `zoom` is an end of `span` that a tile was stored at: one of
/// `zooms`, or an end of the span `before` them.
pub open spec fn reached(zoom: u8, before: Span, zooms: Seq<u8>) -> bool {
    zooms.contains(zoom) || (before matches Some((low, high)) && (zoom == low || zoom == high))
}

/// A widened span covers what it covered before and every zoom level that
/// widened it, and each of its ends was reached.
pub proof fn lemma_widened_by(span: Span, zooms: Seq<u8>)
    ensures
        widened_by(span, zooms) is None <==> span is None && zooms.len() == 0,
        forall|i: int| 0 <= i < zooms.len() ==> covers(widened_by(span, zooms), #[trigger] zooms[i]),
        forall|zoom: u8| #[trigger] covers(span, zoom) ==> covers(widened_by(span, zooms), zoom),
        widened_by(span, zooms) matches Some((low, high)) ==> reached(low, span, zooms) && reached(
            high,
            span,
            zooms,
        ),
    decreases zooms.len(),
{
    if zooms.len() > 0 {
        let first = widened(span, zooms[0]);
        let rest = zooms.drop_first();
        lemma_widened_by(first, rest);
        let end = widened_by(span, zooms);
        assert(covers(first, zooms[0]));
        assert forall|i: int| 0 <= i < zooms.len() implies covers(end, #[trigger] zooms[i]) by {
            if i > 0 {
                assert(zooms[i] == rest[i - 1]);
            }
        }
        assert forall|zoom: u8| #[trigger] covers(span, zoom) implies covers(end, zoom) by {
            assert(covers(first, zoom));
        }
        let (low, high) = end->0;
        assert(reached(low, span, zooms)) by {
            if rest.contains(low) {
                let i = choose|i: int| 0 <= i < rest.len() && rest[i] == low;
                assert(zooms[i + 1] == low);
            } else {
                assert(zooms[0] == low || (span matches Some((l, h)) && (low == l || low == h)));
            }
        }
        assert(reached(high, span, zooms)) by {
            if rest.contains(high) {
                let i = choose|i: int| 0 <= i < rest.len() && rest[i] == high;
                assert(zooms[i + 1] == high);
            } else {
                assert(zooms[0] == high || (span matches Some((l, h)) && (high == l || high == h)));
            }
        }
    }
}

/// The span of a run is empty exactly when nothing was stored; otherwise its
/// ends are the least and the greatest of the zoom levels stored at.
pub proof fn lemma_span_is_least_and_greatest(zooms: Seq<u8>)
    ensures
        span_of(zooms) is None <==> zooms.len() == 0,
        span_of(zooms) matches Some((low, high)) ==> {
            &&& zooms.contains(low)
            &&& zooms.contains(high)
            &&& forall|i: int| 0 <= i < zooms.len() ==> low <= #[trigger] zooms[i] <= high
        },
{
    lemma_widened_by(None, zooms);
    if span_of(zooms) is Some {
        let (low, high) = span_of(zooms)->0;
        assert forall|i: int| 0 <= i < zooms.len() implies low <= #[trigger] zooms[i] <= high by {
            assert(covers(span_of(zooms), zooms[i]));
        }
    }
}

/// What order the tiles were stored in does not matter to the span: one more
/// tile widens it to the same span whether it came before or after another.
pub proof fn lemma_widened_commutes(span: Span, a: u8, b: u8)
    ensures
        widened(widened(span, a), b) == widened(widened(span, b), a),
{
}

/// Running minimum and maximum of the zoom levels of the tiles stored.
#[derive(Clone, Copy, Debug)]
pub struct ZoomRange {
    min: Option<u8>,
    max: Option<u8>,
}

impl View for ZoomRange {
    type V = Span;

    closed spec fn view(&self) -> Span {
        match (self.min, self.max) {
            (Some(low), Some(high)) => Some((low, high)),
            _ => None,
        }
    }
}

impl ZoomRange {
    #[verifier::type_invariant]
    spec fn well_formed(self) -> bool {
        match (self.min, self.max) {
            (None, None) => true,
            (Some(low), Some(high)) => low <= high,
            _ => false,
        }
    }

    /// The range of a run that has stored nothing yet.
    pub fn new() -> (range: ZoomRange)
        ensures
            range@ is None,
    {
        ZoomRange { min: None, max: None }
    }

    /// Takes note of a tile stored at `zoom`.
    pub fn record(&mut self, zoom: u8)
        ensures
            final(self)@ == widened(old(self)@, zoom),
    {
        proof {
            use_type_invariant(&*self);
        }
        let low = match self.min {
            Some(low) => if zoom < low {
                zoom
            } else {
                low
            },
            None => zoom,
        };
        let high = match self.max {
            Some(high) => if zoom > high {
                zoom
            } else {
                high
            },
            None => zoom,
        };
        *self = ZoomRange { min: Some(low), max: Some(high) };
    }

    /// The lowest zoom level stored at, if any.
    pub fn min(&self) -> (low: Option<u8>)
        ensures
            low == match self@ {
                Some((low, _)) => Some(low),
                None => None,
            },
    {
        proof {
            use_type_invariant(self);
        }
        self.min
    }

    /// The highest zoom level stored at, if any.
    pub fn max(&self) -> (high: Option<u8>)
        ensures
            high == match self@ {
                Some((_, high)) => Some(high),
                None => None,
            },
    {
        proof {
            use_type_invariant(self);
        }
        self.max
    }
}

} // verus!
