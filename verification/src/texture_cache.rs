//! Which images and thumbnails are on the GPU, and which thumbnails are decoded next.
//!
//! Entries belong to one state of a file: its path and its modification time.

use vstd::prelude::*;
use crate::decode::{bgra_to_rgba, DecodedPixels};
use crate::path::{FilePath, PartView};

verus! {

/// How many thumbnails are decoded at a time.
pub const THUMB_DECODE_PERMITS: usize = 4;

/// The longest side of a thumbnail.
pub const THUMB_SIZE: u32 = 200;

/// A decoded thumbnail.
#[derive(Debug)]
pub struct ThumbResult {
    pub path: FilePath,
    /// Four bytes per pixel: red, green, blue, alpha.
    pub rgba: Vec<u8>,
    pub width: u32,
    pub height: u32,
}

impl ThumbResult {
    /// Makes a thumbnail of what the decoder gave.
    pub fn from_pixels(path: FilePath, decoded: DecodedPixels) -> (r: Self)
        ensures
            r.path@ == path@,
            r.rgba@ == crate::decode::swapped(decoded.pixels@),
            r.width == decoded.width,
            r.height == decoded.height,
    {
        ThumbResult {
            path,
            width: decoded.width,
            height: decoded.height,
            rgba: bgra_to_rgba(decoded.pixels),
        }
    }
}

/// One state of one file.
pub struct FileKey {
    pub path: Seq<PartView>,
    pub mtime: u64,
}

/// A full-size image on the GPU.
pub struct MainImage<X> {
    pub texture: X,
    pub source_w: u32,
    pub source_h: u32,
    pub path: FilePath,
    pub mtime: u64,
}

/// The mathematical counterpart of [`MainImage`].
#[verifier::reject_recursive_types(X)]
pub struct MainView<X> {
    pub key: FileKey,
    pub texture: X,
    pub source_w: u32,
    pub source_h: u32,
}

impl<X> View for MainImage<X> {
    type V = MainView<X>;

    open spec fn view(&self) -> MainView<X> {
        MainView {
            key: FileKey { path: self.path@.parts(), mtime: self.mtime },
            texture: self.texture,
            source_w: self.source_w,
            source_h: self.source_h,
        }
    }
}

/// A thumbnail on the GPU.
pub struct ThumbEntry<X> {
    pub texture: X,
    pub path: FilePath,
    pub mtime: u64,
}

/// The mathematical counterpart of [`ThumbEntry`].
#[verifier::reject_recursive_types(X)]
pub struct ThumbView<X> {
    pub key: FileKey,
    pub texture: X,
}

impl<X> View for ThumbEntry<X> {
    type V = ThumbView<X>;

    open spec fn view(&self) -> ThumbView<X> {
        ThumbView { key: FileKey { path: self.path@.parts(), mtime: self.mtime }, texture: self.texture }
    }
}

/// How far a requested thumbnail is.
#[derive(Debug, Clone, Copy, PartialEq, Eq, Structural)]
pub enum ThumbStage {
    /// It waits for its turn.
    Waiting,
    /// It is being decoded.
    Decoding,
}

/// A requested thumbnail.
struct PendingThumb {
    path: FilePath,
    mtime: u64,
    stage: ThumbStage,
}

/// The mathematical counterpart of a requested thumbnail.
pub struct PendingView {
    pub key: FileKey,
    pub stage: ThumbStage,
}

impl View for PendingThumb {
    type V = PendingView;

    closed spec fn view(&self) -> PendingView {
        PendingView {
            key: FileKey { path: self.path@.parts(), mtime: self.mtime },
            stage: self.stage,
        }
    }
}

/// The end of a decode.
pub enum ThumbOutcome<X> {
    /// The thumbnail is on the GPU.
    Ready { path: FilePath, mtime: u64, texture: X },
    /// It could not be decoded.
    Failed { path: FilePath, mtime: u64 },
}

/// The mathematical counterpart of [`ThumbOutcome`].
#[verifier::reject_recursive_types(X)]
pub enum OutcomeView<X> {
    Ready { key: FileKey, texture: X },
    Failed { key: FileKey },
}

impl<X> View for ThumbOutcome<X> {
    type V = OutcomeView<X>;

    open spec fn view(&self) -> OutcomeView<X> {
        match self {
            ThumbOutcome::Ready { path, mtime, texture } => OutcomeView::Ready {
                key: FileKey { path: path@.parts(), mtime: *mtime },
                texture: *texture,
            },
            ThumbOutcome::Failed { path, mtime } => OutcomeView::Failed {
                key: FileKey { path: path@.parts(), mtime: *mtime },
            },
        }
    }
}

/// The contents of the cache.
#[verifier::reject_recursive_types(X)]
#[verifier::ext_equal]
pub struct TextureView<X> {
    pub main: Seq<MainView<X>>,
    pub thumbs: Seq<ThumbView<X>>,
    pub pending: Seq<PendingView>,
}

/// A full-size image is for a file state.
pub open spec fn main_for<X>(key: FileKey) -> spec_fn(MainView<X>) -> bool {
    |m: MainView<X>| m.key == key
}

/// A thumbnail is for a file state.
pub open spec fn thumb_for<X>(key: FileKey) -> spec_fn(ThumbView<X>) -> bool {
    |t: ThumbView<X>| t.key == key
}

/// A request is for a file state.
pub open spec fn pending_for(key: FileKey) -> spec_fn(PendingView) -> bool {
    |p: PendingView| p.key == key
}

/// A request waits for its turn.
pub open spec fn is_waiting() -> spec_fn(PendingView) -> bool {
    |p: PendingView| p.stage == ThumbStage::Waiting
}

/// No file state is asked for twice.
pub open spec fn distinct_requests(s: Seq<PendingView>) -> bool {
    forall|i: int, j: int| 0 <= i < j < s.len() ==> (#[trigger] s[i]).key != (#[trigger] s[j]).key
}

/// How many thumbnails are being decoded.
pub open spec fn decoding_count(s: Seq<PendingView>) -> nat
    decreases s.len(),
{
    if s.len() == 0 {
        0
    } else {
        decoding_count(s.drop_last()) + if s.last().stage == ThumbStage::Decoding {
            1nat
        } else {
            0nat
        }
    }
}

impl<X> OutcomeView<X> {
    /// The file state that was decoded.
    pub open spec fn key(self) -> FileKey {
        match self {
            OutcomeView::Ready { key, texture } => key,
            OutcomeView::Failed { key } => key,
        }
    }
}

impl<X> TextureView<X> {
    /// The position of a full-size image.
    pub open spec fn main_at(self, key: FileKey) -> int {
        crate::seqs::first_where(self.main, main_for(key))
    }

    /// The position of a thumbnail.
    pub open spec fn thumb_at(self, key: FileKey) -> int {
        crate::seqs::first_where(self.thumbs, thumb_for(key))
    }

    /// The position of a request.
    pub open spec fn pending_at(self, key: FileKey) -> int {
        crate::seqs::first_where(self.pending, pending_for(key))
    }

    /// The thumbnail was asked for, and its decode has not ended.
    pub open spec fn in_flight(self, key: FileKey) -> bool {
        self.pending_at(key) < self.pending.len()
    }

    /// The thumbnail of a file state.
    pub open spec fn thumb(self, key: FileKey) -> Option<X> {
        if self.thumb_at(key) < self.thumbs.len() {
            Some(self.thumbs[self.thumb_at(key)].texture)
        } else {
            None
        }
    }

    /// The state with a request marked.
    pub open spec fn marked(self, key: FileKey) -> TextureView<X> {
        if self.in_flight(key) {
            self
        } else {
            TextureView {
                pending: self.pending.push(PendingView { key, stage: ThumbStage::Waiting }),
                ..self
            }
        }
    }

    /// The state after a request: nothing changes for a thumbnail that is there or
    /// on its way.
    pub open spec fn requested(self, key: FileKey) -> TextureView<X> {
        if self.in_flight(key) || self.thumb(key) is Some {
            self
        } else {
            self.marked(key)
        }
    }

    /// A decode can be started.
    pub open spec fn can_start(self) -> bool {
        decoding_count(self.pending) < THUMB_DECODE_PERMITS && crate::seqs::first_where(
            self.pending,
            is_waiting(),
        ) < self.pending.len()
    }

    /// The state after the next decode was started.
    pub open spec fn started(self) -> TextureView<X> {
        if self.can_start() {
            let i = crate::seqs::first_where(self.pending, is_waiting());
            TextureView {
                pending: self.pending.update(
                    i,
                    PendingView { stage: ThumbStage::Decoding, ..self.pending[i] },
                ),
                ..self
            }
        } else {
            self
        }
    }

    /// The state with a thumbnail put in; it is no longer asked for.
    pub open spec fn with_thumb(self, key: FileKey, texture: X) -> TextureView<X> {
        let t = self.thumb_at(key);
        let entry = ThumbView { key, texture };
        let p = self.pending_at(key);
        TextureView {
            thumbs: if t < self.thumbs.len() {
                self.thumbs.update(t, entry)
            } else {
                self.thumbs.push(entry)
            },
            pending: if p < self.pending.len() {
                self.pending.remove(p)
            } else {
                self.pending
            },
            ..self
        }
    }

    /// The state after a decode failed: the thumbnail is no longer asked for, and can
    /// be asked for again.
    pub open spec fn with_failure(self, key: FileKey) -> TextureView<X> {
        let p = self.pending_at(key);
        if p < self.pending.len() {
            TextureView { pending: self.pending.remove(p), ..self }
        } else {
            self
        }
    }

    /// The state after one decode ended.
    pub open spec fn ended(self, o: OutcomeView<X>) -> TextureView<X> {
        match o {
            OutcomeView::Ready { key, texture } => self.with_thumb(key, texture),
            OutcomeView::Failed { key } => self.with_failure(key),
        }
    }

    /// The state after the first `n` of several decodes ended.
    pub open spec fn all_ended(self, outcomes: Seq<OutcomeView<X>>, n: int) -> TextureView<X>
        decreases n,
    {
        if n <= 0 {
            self
        } else {
            self.all_ended(outcomes, n - 1).ended(outcomes[n - 1])
        }
    }

    /// No more thumbnails are decoded at a time than permitted, and none is asked for
    /// twice.
    pub open spec fn valid(self) -> bool {
        &&& decoding_count(self.pending) <= THUMB_DECODE_PERMITS
        &&& distinct_requests(self.pending)
    }
}

/// How many of the first `n` outcomes are thumbnails.
pub open spec fn ready_count<X>(outcomes: Seq<OutcomeView<X>>, n: int) -> nat
    decreases n,
{
    if n <= 0 {
        0
    } else {
        ready_count(outcomes, n - 1) + if outcomes[n - 1] is Ready {
            1nat
        } else {
            0nat
        }
    }
}

proof fn decoding_count_split(a: Seq<PendingView>, b: Seq<PendingView>)
    ensures
        decoding_count(a + b) == decoding_count(a) + decoding_count(b),
    decreases b.len(),
{
    if b.len() == 0 {
        assert(a + b =~= a);
    } else {
        assert((a + b).drop_last() =~= a + b.drop_last());
        decoding_count_split(a, b.drop_last());
    }
}

proof fn decoding_count_at(s: Seq<PendingView>, i: int)
    requires
        0 <= i < s.len(),
    ensures
        decoding_count(s) == decoding_count(s.take(i)) + decoding_count(s.skip(i + 1)) + (
        if s[i].stage == ThumbStage::Decoding {
            1nat
        } else {
            0nat
        }),
{
    let one = seq![s[i]];
    assert(s =~= s.take(i) + (one + s.skip(i + 1)));
    decoding_count_split(s.take(i), one + s.skip(i + 1));
    decoding_count_split(one, s.skip(i + 1));
    assert(one.drop_last() =~= Seq::<PendingView>::empty());
    reveal_with_fuel(decoding_count, 2);
}

proof fn removal_keeps_requests(s: Seq<PendingView>, p: int)
    requires
        distinct_requests(s),
        0 <= p < s.len(),
    ensures
        distinct_requests(s.remove(p)),
        forall|k: FileKey|
            #![trigger crate::seqs::first_where(s.remove(p), pending_for(k))]
            crate::seqs::first_where(s, pending_for(k)) >= s.len() || k == s[p].key
                ==> crate::seqs::first_where(s.remove(p), pending_for(k)) >= s.remove(p).len(),
{
    let r = s.remove(p);
    assert forall|i: int| 0 <= i < r.len() implies (#[trigger] r[i]) == s[if i < p {
        i
    } else {
        i + 1
    }] by {}
    assert forall|k: FileKey|
        #![trigger crate::seqs::first_where(s.remove(p), pending_for(k))]
        crate::seqs::first_where(s, pending_for(k)) >= s.len() || k
            == s[p].key implies crate::seqs::first_where(s.remove(p), pending_for(k))
        >= s.remove(p).len() by {
        let f = pending_for(k);
        crate::seqs::first_where_is(s, f);
        assert forall|i: int| 0 <= i < r.len() implies !f(#[trigger] r[i]) by {
            let x = if i < p {
                i
            } else {
                i + 1
            };
            assert(r[i] == s[x]);
            if k == s[p].key {
                if x < p {
                    assert(s[x].key != s[p].key);
                } else {
                    assert(s[p].key != s[x].key);
                }
            } else {
                assert(!f(s[x]));
            }
        }
        crate::seqs::first_where_unique(r, f, r.len() as int);
    }
}

proof fn decoding_count_update(s: Seq<PendingView>, i: int, p: PendingView)
    requires
        0 <= i < s.len(),
    ensures
        decoding_count(s.update(i, p)) <= decoding_count(s) + 1,
        p.stage != ThumbStage::Decoding ==> decoding_count(s.update(i, p)) <= decoding_count(s),
        decoding_count(s.remove(i)) <= decoding_count(s),
{
    let u = s.update(i, p);
    decoding_count_at(s, i);
    decoding_count_at(u, i);
    assert(u.take(i) =~= s.take(i));
    assert(u.skip(i + 1) =~= s.skip(i + 1));
    assert(s.remove(i) =~= s.take(i) + s.skip(i + 1));
    decoding_count_split(s.take(i), s.skip(i + 1));
}

/// No operation lets more thumbnails be decoded at a time than permitted, or one be
/// asked for twice.
pub proof fn permits_are_kept<X>(v: TextureView<X>, key: FileKey, o: OutcomeView<X>)
    requires
        v.valid(),
    ensures
        v.requested(key).valid(),
        v.marked(key).valid(),
        v.started().valid(),
        v.ended(o).valid(),
{
    let longer = v.pending.push(PendingView { key, stage: ThumbStage::Waiting });
    assert(longer.drop_last() =~= v.pending);
    crate::seqs::first_where_is(v.pending, is_waiting());
    let i = crate::seqs::first_where(v.pending, is_waiting());
    if v.can_start() {
        decoding_count_update(
            v.pending,
            i,
            PendingView { stage: ThumbStage::Decoding, ..v.pending[i] },
        );
    }
    crate::seqs::first_where_is(v.pending, pending_for(key));
    assert(!v.in_flight(key) ==> distinct_requests(longer)) by {
        if !v.in_flight(key) {
            assert forall|a: int, b: int| 0 <= a < b < longer.len() implies (
            #[trigger] longer[a]).key != (#[trigger] longer[b]).key by {
                assert(longer[a] == v.pending[a]);
                assert(!pending_for(key)(v.pending[a]));
                if b < v.pending.len() {
                    assert(longer[b] == v.pending[b]);
                }
            }
        }
    }
    assert(distinct_requests(v.started().pending)) by {
        let u = v.started().pending;
        assert forall|a: int, b: int| 0 <= a < b < u.len() implies (#[trigger] u[a]).key != (
        #[trigger] u[b]).key by {
            assert(u[a].key == v.pending[a].key && u[b].key == v.pending[b].key);
        }
    }
    crate::seqs::first_where_is(v.pending, pending_for(o.key()));
    let p = v.pending_at(o.key());
    if p < v.pending.len() {
        decoding_count_update(v.pending, p, v.pending[p]);
        removal_keeps_requests(v.pending, p);
    }
}

/// A thumbnail is on its way only until its decode ends, in whatever way: after that
/// it can be asked for again, unless it is there. Nothing else comes to be on its way.
pub proof fn end_of_flight<X>(v: TextureView<X>, o: OutcomeView<X>, other: FileKey)
    requires
        v.valid(),
    ensures
        !v.ended(o).in_flight(o.key()),
        !v.in_flight(other) ==> !v.ended(o).in_flight(other),
        o is Failed && v.thumb(o.key()) is None ==> v.ended(o).requested(o.key()).in_flight(
            o.key(),
        ),
{
    let p = v.pending_at(o.key());
    crate::seqs::first_where_is(v.pending, pending_for(o.key()));
    if p < v.pending.len() {
        removal_keeps_requests(v.pending, p);
    }
    request_is_idempotent(v.ended(o), o.key());
}

/// Asking for a thumbnail again changes nothing.
pub proof fn request_is_idempotent<X>(v: TextureView<X>, key: FileKey)
    ensures
        v.requested(key).requested(key) == v.requested(key),
        v.requested(key).in_flight(key) || v.requested(key).thumb(key) is Some,
{
    if !v.in_flight(key) && v.thumb(key) is None {
        let r = v.requested(key);
        let n = v.pending.len() as int;
        crate::seqs::first_where_is(v.pending, pending_for(key));
        assert forall|j: int| 0 <= j < n implies !pending_for(key)(#[trigger] r.pending[j]) by {
            assert(r.pending[j] == v.pending[j]);
        }
        crate::seqs::first_where_unique(r.pending, pending_for(key), n);
    }
}

/// A thumbnail that was put in is what is found for its file state.
pub proof fn put_thumb_is_found<X>(v: TextureView<X>, key: FileKey, texture: X)
    ensures
        v.with_thumb(key, texture).thumb(key) == Some(texture),
{
    let r = v.with_thumb(key, texture);
    let t = v.thumb_at(key);
    crate::seqs::first_where_is(v.thumbs, thumb_for::<X>(key));
    let at = if t < v.thumbs.len() {
        t
    } else {
        v.thumbs.len() as int
    };
    assert forall|j: int| 0 <= j < at implies !thumb_for::<X>(key)(#[trigger] r.thumbs[j]) by {
        assert(r.thumbs[j] == v.thumbs[j]);
    }
    crate::seqs::first_where_unique(r.thumbs, thumb_for::<X>(key), at);
}

/// The first request that waits.
pub open spec fn is_first_waiting(s: Seq<PendingView>, i: int) -> bool {
    &&& 0 <= i < s.len()
    &&& s[i].stage == ThumbStage::Waiting
    &&& forall|j: int| 0 <= j < i ==> (#[trigger] s[j]).stage == ThumbStage::Decoding
}

/// A thumbnail that is neither there nor on its way is asked for behind the others, and
/// waits; asking for any other changes nothing. The textures stay.
pub proof fn requests_wait_their_turn<X>(v: TextureView<X>, key: FileKey)
    ensures
        ({
            let r = v.requested(key);
            let known = v.in_flight(key) || v.thumb(key) is Some;
            &&& known ==> r == v
            &&& !known ==> {
                &&& r.pending.len() == v.pending.len() + 1
                &&& r.pending.drop_last() == v.pending
                &&& r.pending.last().key == key
                &&& r.pending.last().stage == ThumbStage::Waiting
                &&& r.main == v.main && r.thumbs == v.thumbs
            }
        }),
{
    let longer = v.pending.push(PendingView { key, stage: ThumbStage::Waiting });
    assert(longer.drop_last() =~= v.pending);
}

/// The request that waits longest is started, while fewer than four are decoded; the
/// others keep their places and stages, and the textures stay. Otherwise nothing changes.
pub proof fn longest_waiting_is_started<X>(v: TextureView<X>, i: int, j: int)
    requires
        is_first_waiting(v.pending, i),
    ensures
        ({
            let r = v.started();
            &&& v.can_start() <==> decoding_count(v.pending) < 4
            &&& v.can_start() ==> {
                &&& r.pending.len() == v.pending.len()
                &&& r.pending[i].key == v.pending[i].key
                &&& r.pending[i].stage == ThumbStage::Decoding
                &&& 0 <= j < v.pending.len() && j != i ==> r.pending[j] == v.pending[j]
                &&& r.main == v.main && r.thumbs == v.thumbs
                &&& decoding_count(r.pending) == decoding_count(v.pending) + 1
            }
            &&& !v.can_start() ==> r == v
        }),
{
    let f = is_waiting();
    assert forall|k: int| 0 <= k < i implies !f(#[trigger] v.pending[k]) by {
        assert(v.pending[k].stage == ThumbStage::Decoding);
    }
    crate::seqs::first_where_unique(v.pending, f, i);
    if v.can_start() {
        let u = v.started().pending;
        decoding_count_at(v.pending, i);
        decoding_count_at(u, i);
        assert(u.take(i) =~= v.pending.take(i));
        assert(u.skip(i + 1) =~= v.pending.skip(i + 1));
    }
}

/// Where no request waits, none is started.
pub proof fn nothing_waits<X>(v: TextureView<X>)
    requires
        forall|k: int| 0 <= k < v.pending.len() ==> (#[trigger] v.pending[k]).stage
            == ThumbStage::Decoding,
    ensures
        !v.can_start(),
        v.started() == v,
        decoding_count(v.pending) == v.pending.len(),
    decreases v.pending.len(),
{
    crate::seqs::first_where_is(v.pending, is_waiting());
    if v.pending.len() > 0 {
        let w = TextureView { pending: v.pending.drop_last(), ..v };
        assert forall|k: int| 0 <= k < w.pending.len() implies (#[trigger] w.pending[k]).stage
            == ThumbStage::Decoding by {
            assert(w.pending[k] == v.pending[k]);
        }
        nothing_waits(w);
    }
}

/// The end of a decode changes nothing for other thumbnails: what is there stays, and what
/// is on its way stays so. A failure leaves all textures as they are.
pub proof fn other_thumbnails_stay<X>(v: TextureView<X>, o: OutcomeView<X>, other: FileKey)
    requires
        v.valid(),
        other != o.key(),
    ensures
        v.ended(o).thumb(other) == v.thumb(other),
        v.ended(o).in_flight(other) == v.in_flight(other),
        v.ended(o).main == v.main,
        o is Failed ==> v.ended(o).thumbs == v.thumbs,
{
    let r = v.ended(o);
    let key = o.key();
    let f = thumb_for::<X>(other);
    let t = v.thumb_at(key);
    crate::seqs::first_where_is(v.thumbs, thumb_for::<X>(key));
    crate::seqs::first_where_is(v.thumbs, f);
    let at = v.thumb_at(other);
    if o is Ready {
        let n = v.thumbs.len() as int;
        if at < n {
            if t < n {
                assert(thumb_for::<X>(key)(v.thumbs[t]));
                assert(t != at);
            }
            assert(r.thumbs[at] == v.thumbs[at]);
            assert forall|i: int| 0 <= i < at implies !f(#[trigger] r.thumbs[i]) by {
                if i != t {
                    assert(r.thumbs[i] == v.thumbs[i]);
                }
            }
            crate::seqs::first_where_unique(r.thumbs, f, at);
        } else {
            assert forall|i: int| 0 <= i < r.thumbs.len() implies !f(#[trigger] r.thumbs[i]) by {
                if i < n && i != t {
                    assert(r.thumbs[i] == v.thumbs[i]);
                }
            }
            crate::seqs::first_where_unique(r.thumbs, f, r.thumbs.len() as int);
        }
    }
    let g = pending_for(other);
    let p = v.pending_at(key);
    crate::seqs::first_where_is(v.pending, pending_for(key));
    crate::seqs::first_where_is(v.pending, g);
    crate::seqs::first_where_is(r.pending, g);
    if p < v.pending.len() {
        removal_keeps_requests(v.pending, p);
        let q = v.pending_at(other);
        if q < v.pending.len() {
            assert(q != p);
            let x = if q < p {
                q
            } else {
                q - 1
            };
            assert(r.pending[x] == v.pending[q]);
            assert(g(r.pending[x]));
        }
    }
}

/// Of several decodes that ended, each thumbnail is there that no later one replaced.
pub proof fn ended_thumbnails_are_there<X>(
    v: TextureView<X>,
    outcomes: Seq<OutcomeView<X>>,
    n: int,
    k: int,
)
    requires
        v.valid(),
        0 <= k < n <= outcomes.len(),
        outcomes[k] is Ready,
        forall|j: int| k < j < n ==> (#[trigger] outcomes[j]).key() != outcomes[k].key(),
    ensures
        v.all_ended(outcomes, n).valid(),
        v.all_ended(outcomes, n).thumb(outcomes[k].key()) == Some(outcomes[k]->texture),
    decreases n,
{
    let before = v.all_ended(outcomes, n - 1);
    all_ended_is_valid(v, outcomes, n - 1);
    permits_are_kept(before, outcomes[n - 1].key(), outcomes[n - 1]);
    if k == n - 1 {
        put_thumb_is_found(before, outcomes[k].key(), outcomes[k]->texture);
    } else {
        ended_thumbnails_are_there(v, outcomes, n - 1, k);
        other_thumbnails_stay(before, outcomes[n - 1], outcomes[k].key());
    }
}

proof fn all_ended_is_valid<X>(v: TextureView<X>, outcomes: Seq<OutcomeView<X>>, n: int)
    requires
        v.valid(),
    ensures
        v.all_ended(outcomes, n).valid(),
    decreases n,
{
    if n > 0 {
        all_ended_is_valid(v, outcomes, n - 1);
        permits_are_kept(
            v.all_ended(outcomes, n - 1),
            outcomes[n - 1].key(),
            outcomes[n - 1],
        );
    }
}

/// The thumbnails that came are counted, and failures are not.
pub proof fn arrivals_are_counted<X>(outcomes: Seq<OutcomeView<X>>, n: int)
    requires
        0 <= n <= outcomes.len(),
    ensures
        ready_count(outcomes, n) <= n,
        (forall|k: int| 0 <= k < n ==> (#[trigger] outcomes[k]) is Ready) ==> ready_count(
            outcomes,
            n,
        ) == n,
        (forall|k: int| 0 <= k < n ==> (#[trigger] outcomes[k]) is Failed) ==> ready_count(
            outcomes,
            n,
        ) == 0,
        n < outcomes.len() && outcomes[n] is Ready ==> ready_count(outcomes, n + 1) == ready_count(
            outcomes,
            n,
        ) + 1,
        n < outcomes.len() && outcomes[n] is Failed ==> ready_count(outcomes, n + 1)
            == ready_count(outcomes, n),
    decreases n,
{
    if n > 0 {
        arrivals_are_counted(outcomes, n - 1);
    }
}

impl<X> TextureView<X> {
    /// The full-size image of a file state.
    pub open spec fn main_image(self, key: FileKey) -> Option<MainView<X>> {
        if self.main_at(key) < self.main.len() {
            Some(self.main[self.main_at(key)])
        } else {
            None
        }
    }

    /// The state with a full-size image put in, in place of an older one for its file
    /// state.
    pub open spec fn with_main(self, entry: MainView<X>) -> TextureView<X> {
        let at = self.main_at(entry.key);
        TextureView {
            main: if at < self.main.len() {
                self.main.update(at, entry)
            } else {
                self.main.push(entry)
            },
            ..self
        }
    }
}

/// A full-size image that was put in is found for its file state; those of other file
/// states stay as they are, and so do the thumbnails and the requests.
pub proof fn put_main_is_found<X>(v: TextureView<X>, entry: MainView<X>, other: FileKey)
    ensures
        v.with_main(entry).main_image(entry.key) == Some(entry),
        other != entry.key ==> v.with_main(entry).main_image(other) == v.main_image(other),
        v.with_main(entry).thumbs == v.thumbs,
        v.with_main(entry).pending == v.pending,
{
    let r = v.with_main(entry);
    let f = main_for::<X>(entry.key);
    let n = v.main.len() as int;
    let at = v.main_at(entry.key);
    crate::seqs::first_where_is(v.main, f);
    assert forall|j: int| 0 <= j < at implies !f(#[trigger] r.main[j]) by {
        assert(r.main[j] == v.main[j]);
    }
    assert(r.main[at] == entry);
    crate::seqs::first_where_unique(r.main, f, at);
    if other != entry.key {
        let g = main_for::<X>(other);
        crate::seqs::first_where_is(v.main, g);
        let q = v.main_at(other);
        if q < n {
            if at < n {
                assert(f(v.main[at]));
                assert(q != at);
            }
            assert(r.main[q] == v.main[q]);
            assert forall|j: int| 0 <= j < q implies !g(#[trigger] r.main[j]) by {
                if j != at {
                    assert(r.main[j] == v.main[j]);
                }
            }
            crate::seqs::first_where_unique(r.main, g, q);
        } else {
            assert forall|j: int| 0 <= j < r.main.len() implies !g(#[trigger] r.main[j]) by {
                if j != at {
                    assert(r.main[j] == v.main[j]);
                }
            }
            crate::seqs::first_where_unique(r.main, g, r.main.len() as int);
        }
    }
}

/// The textures, and the thumbnails asked for.
pub struct TextureCache<X> {
    main: Vec<MainImage<X>>,
    thumbs: Vec<ThumbEntry<X>>,
    thumbs_pending: Vec<PendingThumb>,
}

impl<X> View for TextureCache<X> {
    type V = TextureView<X>;

    closed spec fn view(&self) -> TextureView<X> {
        TextureView {
            main: crate::sort::views(self.main@),
            thumbs: crate::sort::views(self.thumbs@),
            pending: crate::sort::views(self.thumbs_pending@),
        }
    }
}

impl<X> TextureCache<X> {
    /// No more thumbnails are decoded at a time than permitted.
    pub open spec fn wf(&self) -> bool {
        self@.valid()
    }

    /// An empty cache.
    pub fn new() -> (r: Self)
        ensures
            r.wf(),
            r@ == (TextureView::<X> {
                main: Seq::empty(),
                thumbs: Seq::empty(),
                pending: Seq::empty(),
            }),
    {
        let r = TextureCache { main: Vec::new(), thumbs: Vec::new(), thumbs_pending: Vec::new() };
        assert(r@ =~= (TextureView::<X> {
            main: Seq::empty(),
            thumbs: Seq::empty(),
            pending: Seq::empty(),
        }));
        r
    }

    fn find_main(&self, path: &FilePath, mtime: u64) -> (r: usize)
        ensures
            r == self@.main_at(FileKey { path: path@.parts(), mtime }),
            r <= self.main@.len(),
    {
        let ghost f = main_for::<X>(FileKey { path: path@.parts(), mtime });
        let mut i: usize = 0;
        while i < self.main.len()
            invariant
                f == main_for::<X>(FileKey { path: path@.parts(), mtime }),
                i <= self.main@.len(),
                forall|j: int| 0 <= j < i ==> !f(#[trigger] self@.main[j]),
            decreases self.main@.len() - i,
        {
            assert(self@.main[i as int] == self.main@[i as int]@);
            if self.main[i].mtime == mtime && self.main[i].path.same(path) {
                proof {
                    crate::seqs::first_where_unique(self@.main, f, i as int);
                }
                return i;
            }
            i += 1;
        }
        proof {
            crate::seqs::first_where_unique(self@.main, f, i as int);
        }
        i
    }

    fn find_thumb(&self, path: &FilePath, mtime: u64) -> (r: usize)
        ensures
            r == self@.thumb_at(FileKey { path: path@.parts(), mtime }),
            r <= self.thumbs@.len(),
    {
        let ghost f = thumb_for::<X>(FileKey { path: path@.parts(), mtime });
        let mut i: usize = 0;
        while i < self.thumbs.len()
            invariant
                f == thumb_for::<X>(FileKey { path: path@.parts(), mtime }),
                i <= self.thumbs@.len(),
                forall|j: int| 0 <= j < i ==> !f(#[trigger] self@.thumbs[j]),
            decreases self.thumbs@.len() - i,
        {
            assert(self@.thumbs[i as int] == self.thumbs@[i as int]@);
            if self.thumbs[i].mtime == mtime && self.thumbs[i].path.same(path) {
                proof {
                    crate::seqs::first_where_unique(self@.thumbs, f, i as int);
                }
                return i;
            }
            i += 1;
        }
        proof {
            crate::seqs::first_where_unique(self@.thumbs, f, i as int);
        }
        i
    }

    fn find_pending(&self, path: &FilePath, mtime: u64) -> (r: usize)
        ensures
            r == self@.pending_at(FileKey { path: path@.parts(), mtime }),
            r <= self.thumbs_pending@.len(),
    {
        let ghost f = pending_for(FileKey { path: path@.parts(), mtime });
        let mut i: usize = 0;
        while i < self.thumbs_pending.len()
            invariant
                f == pending_for(FileKey { path: path@.parts(), mtime }),
                i <= self.thumbs_pending@.len(),
                forall|j: int| 0 <= j < i ==> !f(#[trigger] self@.pending[j]),
            decreases self.thumbs_pending@.len() - i,
        {
            assert(self@.pending[i as int] == self.thumbs_pending@[i as int]@);
            if self.thumbs_pending[i].mtime == mtime && self.thumbs_pending[i].path.same(path) {
                proof {
                    crate::seqs::first_where_unique(self@.pending, f, i as int);
                }
                return i;
            }
            i += 1;
        }
        proof {
            crate::seqs::first_where_unique(self@.pending, f, i as int);
        }
        i
    }

    /// Asks for a thumbnail; returns whether that is news.
    pub fn request_thumb(&mut self, path: &FilePath, mtime: u64) -> (news: bool)
        requires
            old(self).wf(),
        ensures
            final(self).wf(),
            final(self)@ == old(self)@.requested(FileKey { path: path@.parts(), mtime }),
            news == !(old(self)@.in_flight(FileKey { path: path@.parts(), mtime }) || old(self)@.thumb(
                FileKey { path: path@.parts(), mtime },
            ) is Some),
    {
        if self.thumb_in_flight(path, mtime) || self.get_thumb(path, mtime).is_some() {
            return false;
        }
        self.mark_thumb_pending(path, mtime);
        true
    }

    /// Starts the decode that waits longest, if another one is permitted; returns
    /// the file.
    pub fn start_next(&mut self) -> (r: Option<(FilePath, u64)>)
        requires
            old(self).wf(),
        ensures
            final(self).wf(),
            final(self)@ == old(self)@.started(),
            r.is_some() == old(self)@.can_start(),
            r matches Some(k) ==> (FileKey { path: k.0@.parts(), mtime: k.1 }) == old(
                self,
            )@.pending[crate::seqs::first_where(old(self)@.pending, is_waiting())].key,
    {
        let ghost start = self@;
        let ghost f = is_waiting();
        let mut running: usize = 0;
        let mut first: usize = self.thumbs_pending.len();
        let mut i: usize = 0;
        assert(start.pending.take(0) =~= Seq::<PendingView>::empty());
        while i < self.thumbs_pending.len()
            invariant
                self@ == start,
                f == is_waiting(),
                i <= self.thumbs_pending@.len(),
                running <= i,
                running == decoding_count(start.pending.take(i as int)),
                first == self.thumbs_pending@.len() || first < i,
                forall|j: int| 0 <= j < i && j < first ==> !f(#[trigger] start.pending[j]),
                first < self.thumbs_pending@.len() ==> f(start.pending[first as int]),
            decreases self.thumbs_pending@.len() - i,
        {
            assert(start.pending[i as int] == self.thumbs_pending@[i as int]@);
            assert(start.pending.take(i + 1).drop_last() =~= start.pending.take(i as int));
            match self.thumbs_pending[i].stage {
                ThumbStage::Decoding => {
                    running += 1;
                },
                ThumbStage::Waiting => {
                    if first == self.thumbs_pending.len() {
                        first = i;
                    }
                },
            }
            i += 1;
        }
        assert(start.pending.take(start.pending.len() as int) =~= start.pending);
        proof {
            crate::seqs::first_where_unique(start.pending, f, first as int);
            permits_are_kept(
                start,
                FileKey { path: Seq::empty(), mtime: 0 },
                OutcomeView::Failed { key: FileKey { path: Seq::empty(), mtime: 0 } },
            );
        }
        if running < THUMB_DECODE_PERMITS && first < self.thumbs_pending.len() {
            assert(start.pending[first as int] == self.thumbs_pending@[first as int]@);
            let path = self.thumbs_pending[first].path.clone();
            let mtime: u64 = self.thumbs_pending[first].mtime;
            self.thumbs_pending[first].stage = ThumbStage::Decoding;
            assert(self@ =~= start.started());
            Some((path, mtime))
        } else {
            None
        }
    }

    /// Takes in the ends of several decodes; returns how many thumbnails came.
    pub fn flush_inbox(&mut self, outcomes: Vec<ThumbOutcome<X>>) -> (added: usize)
        requires
            old(self).wf(),
        ensures
            final(self).wf(),
            final(self)@ == old(self)@.all_ended(
                crate::sort::views(outcomes@),
                outcomes@.len() as int,
            ),
            added == ready_count(crate::sort::views(outcomes@), outcomes@.len() as int),
            forall|i: int|
                0 <= i < outcomes@.len() ==> !final(self)@.in_flight(
                    (#[trigger] outcomes@[i])@.key(),
                ),
    {
        let ghost start = self@;
        let ghost all = crate::sort::views(outcomes@);
        let count: usize = outcomes.len();
        let mut added: usize = 0;
        for o in it: outcomes
            invariant
                all == crate::sort::views(it.seq()),
                count == it.seq().len(),
                self.wf(),
                self@ == start.all_ended(all, it.index()),
                added == ready_count(all, it.index()),
                added <= it.index(),
                forall|i: int| 0 <= i < it.index() ==> !self@.in_flight((#[trigger] all[i]).key()),
        {
            let ghost before = self@;
            let ghost ov = o@;
            assert(all[it.index()] == ov);
            proof {
                permits_are_kept(before, FileKey { path: Seq::empty(), mtime: 0 }, ov);
                assert forall|i: int| 0 <= i <= it.index() implies !before.ended(ov).in_flight(
                    (#[trigger] all[i]).key(),
                ) by {
                    end_of_flight(before, ov, all[i].key());
                }
            }
            match o {
                ThumbOutcome::Ready { path, mtime, texture } => {
                    self.put_thumb_rgba(path, mtime, texture);
                    added += 1;
                },
                ThumbOutcome::Failed { path, mtime } => {
                    let p: usize = self.find_pending(&path, mtime);
                    if p < self.thumbs_pending.len() {
                        let asked = self.thumbs_pending.remove(p);
                        assert(self@.pending =~= before.pending.remove(p as int));
                    }
                    assert(self@ =~= before.ended(ov));
                },
            }
        }
        assert forall|i: int| 0 <= i < outcomes@.len() implies !self@.in_flight(
            (#[trigger] outcomes@[i])@.key(),
        ) by {
            assert(all[i] == outcomes@[i]@);
        }
        added
    }

    /// The full-size image of a file state.
    pub fn get_main(&self, path: &FilePath, mtime: u64) -> (r: Option<&MainImage<X>>)
        ensures
            r.is_some() == self@.main_image(FileKey { path: path@.parts(), mtime }).is_some(),
            r matches Some(m) ==> self@.main_image(FileKey { path: path@.parts(), mtime }) == Some(
                m@,
            ),
    {
        let i: usize = self.find_main(path, mtime);
        if i < self.main.len() {
            assert(self@.main[i as int] == self.main@[i as int]@);
            Some(&self.main[i])
        } else {
            None
        }
    }

    /// Puts in a full-size image, in place of an older one for the same file state.
    pub fn put_main(&mut self, path: FilePath, mtime: u64, texture: X, w: u32, h: u32)
        ensures
            final(self)@ == old(self)@.with_main(
                MainView {
                    key: FileKey { path: path@.parts(), mtime },
                    texture,
                    source_w: w,
                    source_h: h,
                },
            ),
    {
        let ghost start = self@;
        let i: usize = self.find_main(&path, mtime);
        let entry = MainImage { texture, source_w: w, source_h: h, path, mtime };
        let ghost ev = entry@;
        if i < self.main.len() {
            self.main.set(i, entry);
            assert(self@.main =~= start.main.update(i as int, ev));
        } else {
            self.main.push(entry);
            assert(self@.main =~= start.main.push(ev));
        }
    }

    /// The thumbnail of a file state.
    pub fn get_thumb(&self, path: &FilePath, mtime: u64) -> (r: Option<&X>)
        ensures
            r.is_some() == self@.thumb(FileKey { path: path@.parts(), mtime }).is_some(),
            r matches Some(x) ==> self@.thumb(FileKey { path: path@.parts(), mtime }) == Some(*x),
    {
        let i: usize = self.find_thumb(path, mtime);
        if i < self.thumbs.len() {
            assert(self@.thumbs[i as int] == self.thumbs@[i as int]@);
            Some(&self.thumbs[i].texture)
        } else {
            None
        }
    }

    /// Whether a thumbnail was asked for and its decode has not ended.
    pub fn thumb_in_flight(&self, path: &FilePath, mtime: u64) -> (r: bool)
        ensures
            r == self@.in_flight(FileKey { path: path@.parts(), mtime }),
    {
        self.find_pending(path, mtime) < self.thumbs_pending.len()
    }

    /// Marks a thumbnail as asked for.
    pub fn mark_thumb_pending(&mut self, path: &FilePath, mtime: u64)
        requires
            old(self).wf(),
        ensures
            final(self).wf(),
            final(self)@ == old(self)@.marked(FileKey { path: path@.parts(), mtime }),
    {
        let ghost start = self@;
        let ghost key = FileKey { path: path@.parts(), mtime };
        proof {
            permits_are_kept(start, key, OutcomeView::Failed { key });
        }
        if self.thumb_in_flight(path, mtime) {
            return ;
        }
        self.thumbs_pending.push(
            PendingThumb { path: path.clone(), mtime, stage: ThumbStage::Waiting },
        );
        assert(self@.pending =~= start.pending.push(
            PendingView { key, stage: ThumbStage::Waiting },
        ));
        assert(self@ =~= start.marked(key));
    }

    /// Puts in a thumbnail; it is no longer asked for.
    pub fn put_thumb_rgba(&mut self, path: FilePath, mtime: u64, texture: X)
        requires
            old(self).wf(),
        ensures
            final(self).wf(),
            final(self)@ == old(self)@.with_thumb(FileKey { path: path@.parts(), mtime }, texture),
    {
        let ghost start = self@;
        let ghost key = FileKey { path: path@.parts(), mtime };
        proof {
            permits_are_kept(start, key, OutcomeView::Ready { key, texture });
        }
        let p: usize = self.find_pending(&path, mtime);
        let t: usize = self.find_thumb(&path, mtime);
        if p < self.thumbs_pending.len() {
            let asked = self.thumbs_pending.remove(p);
            assert(self@.pending =~= start.pending.remove(p as int));
        }
        let entry = ThumbEntry { texture, path, mtime };
        let ghost ev = entry@;
        if t < self.thumbs.len() {
            self.thumbs.set(t, entry);
            assert(self@.thumbs =~= start.thumbs.update(t as int, ev));
        } else {
            self.thumbs.push(entry);
            assert(self@.thumbs =~= start.thumbs.push(ev));
        }
        assert(self@ =~= start.with_thumb(key, texture));
    }

    /// Empties the cache.
    pub fn clear(&mut self)
        ensures
            final(self).wf(),
            final(self)@ == (TextureView::<X> {
                main: Seq::empty(),
                thumbs: Seq::empty(),
                pending: Seq::empty(),
            }),
    {
        self.main.clear();
        self.thumbs.clear();
        self.thumbs_pending.clear();
        assert(self@ =~= (TextureView::<X> {
            main: Seq::empty(),
            thumbs: Seq::empty(),
            pending: Seq::empty(),
        }));
    }

    /// How many thumbnails there are.
    pub fn thumb_count(&self) -> (r: usize)
        ensures
            r == self@.thumbs.len(),
    {
        self.thumbs.len()
    }
}

} // verus!
