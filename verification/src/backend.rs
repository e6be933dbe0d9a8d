use vstd::prelude::*;
use crate::db::{decoded_value, lemma_utf8_round_trip};
use crate::lmdb::{EnvPlan, MAP_SIZE};
use vstd::utf8::encode_utf8;
use crate::mem::{lookup, MemStore};
use crate::proto::{BackendError, BackendResult, OpenIn, Resp, SaveIn, Str};

verus! {

/// The storage engine that serves requests.
#[derive(Debug, Clone, Copy, PartialEq, Eq, Structural)]
pub enum End {
    MEM,
    LMDB,
    SLED,
}

/// The engine that a mode byte selects: 1 is LMDB, 2 is sled, and every
/// other value falls back to the in-memory engine.
pub open spec fn end_of_byte(b: i8) -> End {
    if b == 1 {
        End::LMDB
    } else if b == 2 {
        End::SLED
    } else {
        End::MEM
    }
}

impl From<i8> for End {
    fn from(b: i8) -> (e: End) {
        if b == 1 {
            End::LMDB
        } else if b == 2 {
            End::SLED
        } else {
            End::MEM
        }
    }
}

impl vstd::std_specs::convert::FromSpecImpl<i8> for End {
    open spec fn obeys_from_spec() -> bool {
        true
    }

    open spec fn from_spec(b: i8) -> End {
        end_of_byte(b)
    }
}

/// The state of the service, as a value.
pub struct BackendView {
    /// The mode that the last open request named.
    pub mode: i32,
    /// What the in-memory engine holds.
    pub mem: Map<Seq<char>, Seq<char>>,
    /// Whether the LMDB environment has been opened.
    pub lmdb_open: bool,
    /// Whether the sled store has been created.
    pub sled_open: bool,
}

impl BackendView {
    /// The engine that serves requests: the one that the low byte of the
    /// mode selects.
    pub open spec fn end(self) -> End {
        end_of_byte(self.mode as i8)
    }

    /// Whether the engine that serves requests is ready for them: a disk
    /// engine must have been opened first.
    pub open spec fn ready(self) -> bool {
        &&& self.end() == End::LMDB ==> self.lmdb_open
        &&& self.end() == End::SLED ==> self.sled_open
    }
}

/// The state of a new service: mode 0, nothing stored, no disk engine open.
pub open spec fn initial() -> BackendView {
    BackendView {
        mode: 0,
        mem: Map::empty(),
        lmdb_open: false,
        sled_open: false,
    }
}

/// The state after an open request with `mode`.
pub open spec fn after_create(v: BackendView, mode: i32) -> BackendView {
    BackendView { mode, ..v }
}

/// The state after a save of `val` under `key`: the in-memory engine takes
/// it; a disk engine takes it on disk, outside this state.
pub open spec fn after_save(v: BackendView, key: Seq<char>, val: Seq<char>) -> BackendView {
    if v.end() == End::MEM {
        BackendView { mem: v.mem.insert(key, val), ..v }
    } else {
        v
    }
}

/// The state after the host reports how opening the LMDB environment
/// went: open on success, as it was on failure.
pub open spec fn after_lmdb_opened(v: BackendView, ok: bool) -> BackendView {
    if ok {
        BackendView { lmdb_open: true, ..v }
    } else {
        v
    }
}

/// The state after the host reports that the sled store was created.
pub open spec fn after_sled_created(v: BackendView) -> BackendView {
    BackendView { sled_open: true, ..v }
}

/// The service. It owns the in-memory engine and remembers which engine
/// serves requests and which disk engines are open.
pub struct Backend {
    use_end: i32,
    mem: MemStore,
    lmdb_open: bool,
    sled_open: bool,
}

impl View for Backend {
    type V = BackendView;

    closed spec fn view(&self) -> BackendView {
        BackendView {
            mode: self.use_end,
            mem: self.mem@,
            lmdb_open: self.lmdb_open,
            sled_open: self.sled_open,
        }
    }
}

/// What an open request leaves to do.
pub enum CreateStep {
    /// Nothing: the reply is ready.
    Ready(Resp),
    /// Open the LMDB environment as planned, then its store (see
    /// [`crate::lmdb::next_attempt`]), then report with
    /// [`Backend::lmdb_opened`].
    OpenLmdb(EnvPlan),
    /// Create the sled store at this path, then report with
    /// [`Backend::sled_created`].
    OpenSled(String),
    /// The sled store has been created before and cannot be created again:
    /// the request fails with "already opened". The mode is recorded all
    /// the same.
    SledAlreadyOpen,
}

/// What a save request leaves to do.
pub enum SaveStep {
    /// Nothing: the value is stored and the reply is ready.
    Stored(Resp),
    /// Put the pair into the LMDB store and commit, then send `reply`.
    PutLmdb { key: String, val: String, reply: Resp },
    /// Set the pair in the sled store, then send `reply` whatever the
    /// store says.
    SetSled { key: String, val: String, reply: Resp },
}

/// The reply that a save step ends with.
pub open spec fn reply_of(step: SaveStep) -> Resp {
    match step {
        SaveStep::Stored(r) => r,
        SaveStep::PutLmdb { reply, .. } => reply,
        SaveStep::SetSled { reply, .. } => reply,
    }
}

/// What a lookup leaves to do.
pub enum GetStep {
    /// Nothing: this is the answer.
    Answered(BackendResult<Str>),
    /// Read the key from the LMDB store and hand what was found to
    /// [`crate::lmdb::answer`].
    ReadLmdb(String),
    /// Read the key from the sled store and hand what was found to
    /// [`crate::db::answer`].
    ReadSled(String),
}

impl Backend {
    /// A new service: the state of a process before any request, in the
    /// in-memory mode, with nothing stored and no disk engine open. The host
    /// keeps one for the whole process.
    pub fn new() -> (b: Backend)
        ensures
            b@ == initial(),
    {
        Backend { use_end: 0, mem: MemStore::new(), lmdb_open: false, sled_open: false }
    }

    /// Handles an open request: remembers its mode, whatever comes next,
    /// then says what the engine that the mode selects needs. The in-memory
    /// engine needs nothing; an LMDB environment is opened once, and a later
    /// request answers at once; a sled store can be created only once.
    pub fn create(&mut self, input: OpenIn) -> (step: CreateStep)
        ensures
            final(self)@ == after_create(old(self)@, input.mode),
            match end_of_byte(input.mode as i8) {
                End::MEM => step matches CreateStep::Ready(r) && r.ret == 0 && r.msg@.len() == 0,
                End::LMDB => if old(self)@.lmdb_open {
                    step matches CreateStep::Ready(r) && r.ret == 0 && r.msg@.len() == 0
                } else {
                    step matches CreateStep::OpenLmdb(p) && p.path@ == input.path@
                        && p.map_size == MAP_SIZE && p.make_dir_if_needed
                },
                End::SLED => if old(self)@.sled_open {
                    step matches CreateStep::SledAlreadyOpen
                } else {
                    step matches CreateStep::OpenSled(p) && p@ == input.path@
                },
            },
    {
        self.use_end = input.mode;
        match End::from(input.mode as i8) {
            End::LMDB => {
                if self.lmdb_open {
                    CreateStep::Ready(Resp::ok())
                } else {
                    CreateStep::OpenLmdb(crate::lmdb::plan(input.path))
                }
            }
            End::SLED => {
                if self.sled_open {
                    CreateStep::SledAlreadyOpen
                } else {
                    CreateStep::OpenSled(input.path)
                }
            }
            End::MEM => CreateStep::Ready(Resp::ok()),
        }
    }

    /// Records the outcome of opening the LMDB environment that
    /// [`CreateStep::OpenLmdb`] asked for: on success the environment stays
    /// open and the request succeeds; on failure nothing changes and the
    /// request fails with the engine's error.
    pub fn lmdb_opened(&mut self, outcome: Result<(), String>) -> (r: BackendResult<Resp>)
        ensures
            match outcome {
                Ok(()) => {
                    &&& final(self)@ == after_lmdb_opened(old(self)@, true)
                    &&& r matches Ok(resp) && resp.ret == 0 && resp.msg@.len() == 0
                },
                Err(e) => {
                    &&& final(self)@ == after_lmdb_opened(old(self)@, false)
                    &&& r matches Err(BackendError::Store(m)) && m@ == e@
                },
            },
    {
        match outcome {
            Ok(()) => {
                self.lmdb_open = true;
                Ok(Resp::ok())
            }
            Err(e) => Err(BackendError::Store(e)),
        }
    }

    /// Records that the sled store that [`CreateStep::OpenSled`] asked for
    /// has been created; the request succeeds.
    pub fn sled_created(&mut self) -> (r: Resp)
        ensures
            final(self)@ == after_sled_created(old(self)@),
            r.ret == 0,
            r.msg@.len() == 0,
    {
        self.sled_open = true;
        Resp::ok()
    }

    /// The mode that the last open request named (0 before any).
    pub fn mode(&self) -> (m: i32)
        ensures
            m == self@.mode,
    {
        self.use_end
    }

    /// The engine that serves requests.
    pub fn end(&self) -> (e: End)
        ensures
            e == self@.end(),
    {
        End::from(self.use_end as i8)
    }

    /// Whether the engine that serves requests is ready for them.
    pub fn is_ready(&self) -> (b: bool)
        ensures
            b == self@.ready(),
    {
        match End::from(self.use_end as i8) {
            End::LMDB => self.lmdb_open,
            End::SLED => self.sled_open,
            End::MEM => true,
        }
    }

    /// Whether the LMDB environment is open.
    pub fn lmdb_is_open(&self) -> (b: bool)
        ensures
            b == self@.lmdb_open,
    {
        self.lmdb_open
    }

    /// Whether the sled store has been created.
    pub fn sled_is_open(&self) -> (b: bool)
        ensures
            b == self@.sled_open,
    {
        self.sled_open
    }

    /// The service's in-memory store, to read and write through.
    pub(crate) fn mem_store(&mut self) -> (s: &mut MemStore)
        ensures
            s@ == old(self)@.mem,
            final(self)@ == (BackendView { mem: final(s)@, ..old(self)@ }),
    {
        &mut self.mem
    }

    /// Handles a save request on the engine that serves requests: the
    /// in-memory engine stores the pair at once; a disk engine is asked to.
    pub fn save(&mut self, input: SaveIn) -> (step: SaveStep)
        requires
            old(self)@.ready(),
        ensures
            final(self)@ == after_save(old(self)@, input.key@, input.val@),
            reply_of(step).ret == 0,
            reply_of(step).msg@.len() == 0,
            match old(self)@.end() {
                End::MEM => step is Stored,
                End::LMDB => step matches SaveStep::PutLmdb { key, val, .. }
                    && key@ == input.key@ && val@ == input.val@,
                End::SLED => step matches SaveStep::SetSled { key, val, .. }
                    && key@ == input.key@ && val@ == input.val@,
            },
    {
        match End::from(self.use_end as i8) {
            End::LMDB => SaveStep::PutLmdb { key: input.key, val: input.val, reply: Resp::ok() },
            End::SLED => SaveStep::SetSled { key: input.key, val: input.val, reply: Resp::ok() },
            End::MEM => {
                self.mem.insert(input.key, input.val);
                SaveStep::Stored(Resp::ok())
            }
        }
    }

    /// Handles a lookup on the engine that serves requests: the in-memory
    /// engine answers the value stored under the key, or the empty string;
    /// a disk engine is asked to read it.
    pub fn get(&self, input: Str) -> (step: GetStep)
        requires
            self@.ready(),
        ensures
            match self@.end() {
                End::MEM => step matches GetStep::Answered(Ok(v))
                    && v.val@ == lookup(self@.mem, input.val@),
                End::LMDB => step matches GetStep::ReadLmdb(k) && k@ == input.val@,
                End::SLED => step matches GetStep::ReadSled(k) && k@ == input.val@,
            },
    {
        match End::from(self.use_end as i8) {
            End::LMDB => GetStep::ReadLmdb(input.val),
            End::SLED => GetStep::ReadSled(input.val),
            End::MEM => {
                let v = self.mem.get(input.val.as_str());
                GetStep::Answered(Ok(Str { val: v }))
            }
        }
    }
}

/// The engine that a mode selects depends on the mode's low byte alone:
/// a mode that is 1 modulo 256 selects LMDB, one that is 2 modulo 256
/// selects sled, and every other mode selects the in-memory engine.
pub proof fn lemma_mode_low_byte(mode: i32)
    ensures
        end_of_byte(mode as i8) == End::LMDB <==> mode % 256 == 1,
        end_of_byte(mode as i8) == End::SLED <==> mode % 256 == 2,
        end_of_byte(mode as i8) == End::MEM <==> (mode % 256 != 1 && mode % 256 != 2),
{
    assert((mode as i8 == 1i8) <==> (mode % 256 == 1)) by (bit_vector);
    assert((mode as i8 == 2i8) <==> (mode % 256 == 2)) by (bit_vector);
}

/// The state after saving each pair of `pairs`, in order.
pub open spec fn after_saves(v: BackendView, pairs: Seq<(Seq<char>, Seq<char>)>) -> BackendView
    decreases pairs.len(),
{
    if pairs.len() == 0 {
        v
    } else {
        let last = pairs.last();
        after_save(after_saves(v, pairs.drop_last()), last.0, last.1)
    }
}

/// Read your write: in the in-memory mode, a lookup of a key just saved
/// answers the value saved.
pub proof fn lemma_get_after_save(v: BackendView, key: Seq<char>, val: Seq<char>)
    requires
        v.end() == End::MEM,
    ensures
        lookup(after_save(v, key, val).mem, key) == val,
{
}

/// A save changes the answer for its own key only.
pub proof fn lemma_save_keeps_other_keys(
    v: BackendView,
    key: Seq<char>,
    val: Seq<char>,
    other: Seq<char>,
)
    requires
        other != key,
    ensures
        lookup(after_save(v, key, val).mem, other) == lookup(v.mem, other),
{
}

/// A new service answers every lookup with the empty string.
pub proof fn lemma_new_answers_empty(key: Seq<char>)
    ensures
        initial().end() == End::MEM,
        lookup(initial().mem, key) == Seq::<char>::empty(),
{
}

/// A save on a disk engine leaves the service's own state as it was.
pub proof fn lemma_disk_save_keeps_state(v: BackendView, key: Seq<char>, val: Seq<char>)
    requires
        v.end() != End::MEM,
    ensures
        after_save(v, key, val) == v,
{
}

/// An open request changes the mode only: what the in-memory engine holds,
/// and which disk engines are open, stay as they were; the engine that
/// serves requests is then the one the new mode selects.
pub proof fn lemma_create_keeps_data(v: BackendView, mode: i32)
    ensures
        after_create(v, mode).mem == v.mem,
        after_create(v, mode).lmdb_open == v.lmdb_open,
        after_create(v, mode).sled_open == v.sled_open,
        after_create(v, mode).end() == end_of_byte(mode as i8),
{
}

/// Saves in the in-memory mode keep the mode, and after a run of them,
/// with pairwise distinct keys, a lookup of each key answers the value
/// saved under it.
pub proof fn lemma_saves_then_reads(v: BackendView, pairs: Seq<(Seq<char>, Seq<char>)>, i: int)
    requires
        v.end() == End::MEM,
        0 <= i < pairs.len(),
        forall|j: int, k: int| 0 <= j < k < pairs.len() ==> pairs[j].0 != pairs[k].0,
    ensures
        after_saves(v, pairs).end() == End::MEM,
        lookup(after_saves(v, pairs).mem, pairs[i].0) == pairs[i].1,
    decreases pairs.len(),
{
    lemma_saves_keep_mode(v, pairs);
    let init = pairs.drop_last();
    let last = pairs.last();
    lemma_saves_keep_mode(v, init);
    if i == pairs.len() - 1 {
        lemma_get_after_save(after_saves(v, init), last.0, last.1);
    } else {
        lemma_saves_then_reads(v, init, i);
        assert(init[i].0 != last.0);
        lemma_save_keeps_other_keys(after_saves(v, init), last.0, last.1, pairs[i].0);
    }
}

/// Saves never change the mode.
pub proof fn lemma_saves_keep_mode(v: BackendView, pairs: Seq<(Seq<char>, Seq<char>)>)
    ensures
        after_saves(v, pairs).mode == v.mode,
        after_saves(v, pairs).lmdb_open == v.lmdb_open,
        after_saves(v, pairs).sled_open == v.sled_open,
    decreases pairs.len(),
{
    if pairs.len() > 0 {
        lemma_saves_keep_mode(v, pairs.drop_last());
    }
}

/// Once open, a disk engine stays open through every later open or save
/// request, and the engine that serves requests stays ready as long as the
/// mode does not change.
pub proof fn lemma_open_engines_stay_open(
    v: BackendView,
    mode: i32,
    key: Seq<char>,
    val: Seq<char>,
)
    ensures
        v.lmdb_open ==> after_create(v, mode).lmdb_open && after_save(v, key, val).lmdb_open,
        v.sled_open ==> after_create(v, mode).sled_open && after_save(v, key, val).sled_open,
        v.ready() ==> after_save(v, key, val).ready(),
        v.ready() ==> after_create(v, v.mode).ready(),
{
}

/// What the host keeps on disk after the save step for `key` and `val`: a
/// disk engine takes the pair; the in-memory engine leaves the disk alone.
pub open spec fn disk_after_save(
    v: BackendView,
    disk: Map<Seq<char>, Seq<char>>,
    key: Seq<char>,
    val: Seq<char>,
) -> Map<Seq<char>, Seq<char>> {
    if v.end() == End::MEM {
        disk
    } else {
        disk.insert(key, val)
    }
}

/// What a lookup of `key` answers where the host keeps on `disk` the
/// strings it was handed (sled as their UTF-8 bytes): the in-memory engine
/// answers from its own map; LMDB answers the stored string, and fails
/// where there is none; sled answers the decoded bytes, and the empty
/// string where there are none.
pub open spec fn served(v: BackendView, disk: Map<Seq<char>, Seq<char>>, key: Seq<char>) -> Option<Seq<char>> {
    match v.end() {
        End::MEM => Some(lookup(v.mem, key)),
        End::LMDB => if disk.contains_key(key) {
            Some(disk[key])
        } else {
            None
        },
        End::SLED => if disk.contains_key(key) {
            decoded_value(encode_utf8(disk[key]))
        } else {
            Some(Seq::empty())
        },
    }
}

/// Read your write in every engine: after a save of `val` under `key`,
/// carried out by a host that stores what the save step hands it, a lookup
/// of `key` answers `val`.
pub proof fn lemma_read_your_write_every_engine(
    v: BackendView,
    disk: Map<Seq<char>, Seq<char>>,
    key: Seq<char>,
    val: Seq<char>,
)
    requires
        v.ready(),
    ensures
        served(after_save(v, key, val), disk_after_save(v, disk, key, val), key) == Some(val),
{
    lemma_utf8_round_trip(val);
}

/// A request other than an open one, as it changes the state: a save, a
/// write through the in-memory store ([`crate::mem::store`]), or the
/// host's report on opening a disk engine.
pub enum Request {
    Save(Seq<char>, Seq<char>),
    MemoryWrite(Seq<char>, Seq<char>),
    LmdbOpened(bool),
    SledCreated,
}

/// Whether `r` writes under `key`.
pub open spec fn writes(r: Request, key: Seq<char>) -> bool {
    match r {
        Request::Save(k, _) => k == key,
        Request::MemoryWrite(k, _) => k == key,
        _ => false,
    }
}

/// The state after `r`.
pub open spec fn after_request(v: BackendView, r: Request) -> BackendView {
    match r {
        Request::Save(k, x) => after_save(v, k, x),
        Request::MemoryWrite(k, x) => BackendView { mem: v.mem.insert(k, x), ..v },
        Request::LmdbOpened(ok) => after_lmdb_opened(v, ok),
        Request::SledCreated => after_sled_created(v),
    }
}

/// The state after each request of `rs`, in order.
pub open spec fn after_requests(v: BackendView, rs: Seq<Request>) -> BackendView
    decreases rs.len(),
{
    if rs.len() == 0 {
        v
    } else {
        after_request(after_requests(v, rs.drop_last()), rs.last())
    }
}

/// What the host keeps on disk after `r`, from state `v`.
pub open spec fn disk_after_request(
    v: BackendView,
    disk: Map<Seq<char>, Seq<char>>,
    r: Request,
) -> Map<Seq<char>, Seq<char>> {
    match r {
        Request::Save(k, x) => disk_after_save(v, disk, k, x),
        _ => disk,
    }
}

/// What the host keeps on disk after each request of `rs`, from state `v`.
pub open spec fn disk_after_requests(
    v: BackendView,
    disk: Map<Seq<char>, Seq<char>>,
    rs: Seq<Request>,
) -> Map<Seq<char>, Seq<char>>
    decreases rs.len(),
{
    if rs.len() == 0 {
        disk
    } else {
        disk_after_request(
            after_requests(v, rs.drop_last()),
            disk_after_requests(v, disk, rs.drop_last()),
            rs.last(),
        )
    }
}

/// Requests other than open ones never change the mode.
pub proof fn lemma_requests_keep_mode(v: BackendView, rs: Seq<Request>)
    ensures
        after_requests(v, rs).mode == v.mode,
    decreases rs.len(),
{
    if rs.len() > 0 {
        lemma_requests_keep_mode(v, rs.drop_last());
    }
}

/// The last open request decides the engine: whatever mode an earlier
/// request named, and whatever requests follow (saves, writes, reports of
/// opens that succeeded or failed), requests go to the engine that the last
/// mode selects.
pub proof fn lemma_last_mode_wins(v: BackendView, earlier: i32, last: i32, rs: Seq<Request>)
    ensures
        after_requests(after_create(after_create(v, earlier), last), rs).mode == last,
        after_requests(after_create(after_create(v, earlier), last), rs).end() == end_of_byte(last as i8),
{
    lemma_requests_keep_mode(after_create(after_create(v, earlier), last), rs);
}

/// A request that does not write under `key` leaves what a lookup of
/// `key` answers as it was.
pub proof fn lemma_request_keeps_answer(
    v: BackendView,
    disk: Map<Seq<char>, Seq<char>>,
    r: Request,
    key: Seq<char>,
)
    requires
        !writes(r, key),
    ensures
        served(after_request(v, r), disk_after_request(v, disk, r), key) == served(v, disk, key),
{
}

/// Read your write in every engine, over any run of later requests: after
/// a save of `val` under `key`, carried out by a host that stores what each
/// save step hands it, and then any requests that do not write under
/// `key`, a lookup of `key` answers `val`.
pub proof fn lemma_read_your_write_after_requests(
    v: BackendView,
    disk: Map<Seq<char>, Seq<char>>,
    key: Seq<char>,
    val: Seq<char>,
    rs: Seq<Request>,
)
    requires
        v.ready(),
        forall|j: int| 0 <= j < rs.len() ==> !writes(#[trigger] rs[j], key),
    ensures
        served(
            after_requests(after_save(v, key, val), rs),
            disk_after_requests(after_save(v, key, val), disk_after_save(v, disk, key, val), rs),
            key,
        ) == Some(val),
    decreases rs.len(),
{
    if rs.len() == 0 {
        lemma_read_your_write_every_engine(v, disk, key, val);
    } else {
        let init = rs.drop_last();
        assert forall|j: int| 0 <= j < init.len() implies !writes(#[trigger] init[j], key) by {
            assert(init[j] == rs[j]);
        }
        lemma_read_your_write_after_requests(v, disk, key, val, init);
        assert(!writes(rs[rs.len() - 1], key));
        lemma_request_keeps_answer(
            after_requests(after_save(v, key, val), init),
            disk_after_requests(after_save(v, key, val), disk_after_save(v, disk, key, val), init),
            rs.last(),
            key,
        );
    }
}

/// The in-memory engine always serves: a service whose mode selects it is
/// ready, from the start and after every open request that selects it,
/// whatever disk engines are open; a disk engine is ready exactly when it
/// has been opened.
pub proof fn lemma_memory_is_always_ready(v: BackendView, mode: i32)
    ensures
        v.end() == End::MEM ==> v.ready(),
        initial().ready(),
        end_of_byte(mode as i8) == End::MEM ==> after_create(v, mode).ready(),
        mode % 256 != 1 && mode % 256 != 2 ==> after_create(v, mode).ready(),
        v.end() == End::LMDB ==> (v.ready() <==> v.lmdb_open),
        v.end() == End::SLED ==> (v.ready() <==> v.sled_open),
{
    lemma_mode_low_byte(mode);
}

/// The host's reports on opening a disk engine: a successful LMDB open
/// leaves the environment open, a failed one leaves the service exactly as
/// it was, and a created sled store stays open; none of them touches the
/// mode or what the in-memory engine holds.
pub proof fn lemma_open_reports(v: BackendView)
    ensures
        after_lmdb_opened(v, true).lmdb_open,
        after_lmdb_opened(v, true).sled_open == v.sled_open,
        after_lmdb_opened(v, true).mode == v.mode,
        after_lmdb_opened(v, true).mem == v.mem,
        after_lmdb_opened(v, false) == v,
        after_sled_created(v).sled_open,
        after_sled_created(v).lmdb_open == v.lmdb_open,
        after_sled_created(v).mode == v.mode,
        after_sled_created(v).mem == v.mem,
{
}

} // verus!
