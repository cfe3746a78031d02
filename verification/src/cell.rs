//! The cell runtime's decisions: its errors, the method table that routes a
//! request to the service registered for its method ID, and the parsing of
//! the hub arguments a cell is started with.

use vstd::prelude::*;

use crate::descriptor::MsgDescHot;
use crate::error::{ErrorCode, RpcError, TransportError};
use crate::frame::Frame;
use crate::text::{decimal_text, push_decimal};

verus! {

/// Channel ID start for cells: even IDs (2, 4, 6, ...); hosts use odd ones.
pub const CELL_CHANNEL_START: u32 = 2;

/// Errors of the cell runtime.
#[derive(Debug)]
pub enum CellError {
    /// The command line arguments could not be parsed.
    Args(String),
    /// The host did not create the hub file in time (its path).
    HubTimeout(String),
    /// The hub session could not be opened.
    HubOpen(String),
    /// Hub arguments are missing or invalid.
    HubArgs(String),
    /// The doorbell descriptor is invalid.
    DoorbellFd(String),
    /// An RPC session error.
    Rpc(RpcError),
    /// A transport error.
    Transport(TransportError),
}

impl From<RpcError> for CellError {
    fn from(e: RpcError) -> (r: Self) {
        CellError::Rpc(e)
    }
}

impl vstd::std_specs::convert::FromSpecImpl<RpcError> for CellError {
    open spec fn obeys_from_spec() -> bool {
        true
    }

    open spec fn from_spec(e: RpcError) -> CellError {
        CellError::Rpc(e)
    }
}

impl From<TransportError> for CellError {
    fn from(e: TransportError) -> (r: Self) {
        CellError::Transport(e)
    }
}

impl vstd::std_specs::convert::FromSpecImpl<TransportError> for CellError {
    open spec fn obeys_from_spec() -> bool {
        true
    }

    open spec fn from_spec(e: TransportError) -> CellError {
        CellError::Transport(e)
    }
}

/// Calls `format!` with `{:?}` on an RPC error: its derived `Debug` text.
/// Nothing is claimed of the text.
#[verifier::external_body]
fn rpc_error_debug_text(e: &RpcError) -> String {
    format!("{:?}", e)
}

/// Calls `format!` with `{:?}` on a transport error: its derived `Debug`
/// text. Nothing is claimed of the text.
#[verifier::external_body]
fn transport_error_debug_text(e: &TransportError) -> String {
    format!("{:?}", e)
}

/// The message of a cell error whose cause is given as text; the message of
/// an RPC or transport error starts with its prefix, and the error's `Debug`
/// text follows.
pub open spec fn cell_error_text(e: CellError) -> Option<Seq<char>> {
    match e {
        CellError::Args(msg) => Some("Argument error: "@ + msg@),
        CellError::HubTimeout(path) => Some("Hub file not created by host: "@ + path@),
        CellError::HubOpen(msg) => Some("Failed to open hub: "@ + msg@),
        CellError::HubArgs(msg) => Some("Hub argument error: "@ + msg@),
        CellError::DoorbellFd(msg) => Some("Doorbell fd error: "@ + msg@),
        CellError::Rpc(_) => None,
        CellError::Transport(_) => None,
    }
}

impl CellError {
    /// The error's message.
    pub fn to_string(&self) -> (r: String)
        ensures
            match cell_error_text(*self) {
                Some(t) => r@ == t,
                None => match *self {
                    CellError::Rpc(_) => r@.take(11) == "RPC error: "@,
                    _ => r@.take(17) == "Transport error: "@,
                },
            },
    {
        let (prefix, rest) = match self {
            CellError::Args(msg) => ("Argument error: ", msg.clone()),
            CellError::HubTimeout(path) => ("Hub file not created by host: ", path.clone()),
            CellError::HubOpen(msg) => ("Failed to open hub: ", msg.clone()),
            CellError::HubArgs(msg) => ("Hub argument error: ", msg.clone()),
            CellError::DoorbellFd(msg) => ("Doorbell fd error: ", msg.clone()),
            CellError::Rpc(e) => ("RPC error: ", rpc_error_debug_text(e)),
            CellError::Transport(e) => ("Transport error: ", transport_error_debug_text(e)),
        };
        let mut s = String::from_str(prefix);
        s.append(rest.as_str());
        proof {
            reveal_strlit("RPC error: ");
            reveal_strlit("Transport error: ");
        }
        assert(s@.take(prefix@.len() as int) =~= prefix@);
        s
    }
}

// =============================================================================
// Method table
// =============================================================================

/// The method table: which registered service (by the order of registration)
/// handles each method ID.
#[derive(Debug)]
pub struct DispatcherBuilder {
    service_count: usize,
    methods: Vec<(u32, usize)>,
}

/// The table as a map from method ID to service index.
pub open spec fn method_map(m: Seq<(u32, usize)>) -> Map<u32, usize>
    decreases m.len(),
{
    if m.len() == 0 {
        Map::empty()
    } else {
        method_map(m.drop_last()).insert(m.last().0, m.last().1)
    }
}

/// The index of the first element of `ids` that occurs earlier in `ids` or is
/// a key of `table`.
pub open spec fn first_collision(table: Map<u32, usize>, ids: Seq<u32>) -> Option<int> {
    if exists|i: int|
        0 <= i < ids.len() && (table.contains_key(ids[i]) || exists|j: int|
            0 <= j < i && ids[j] == ids[i]) {
        Some(
            choose|i: int|
                #![trigger ids[i]]
                0 <= i < ids.len() && (table.contains_key(ids[i]) || exists|j: int|
                    0 <= j < i && ids[j] == ids[i]) && forall|k: int|
                    0 <= k < i ==> !(table.contains_key(ids[k]) || exists|j: int|
                        0 <= j < k && ids[j] == ids[k]),
        )
    } else {
        None
    }
}

/// `table` with every ID of `ids` mapped to `service`.
pub open spec fn with_methods(table: Map<u32, usize>, ids: Seq<u32>, service: usize) -> Map<
    u32,
    usize,
> {
    Map::new(
        |k: u32| table.contains_key(k) || ids.contains(k),
        |k: u32|
            if ids.contains(k) {
                service
            } else {
                table[k]
            },
    )
}

impl DispatcherBuilder {
    /// Method ID to service index.
    pub closed spec fn view(&self) -> Map<u32, usize> {
        method_map(self.methods@)
    }

    /// How many services were registered.
    pub closed spec fn spec_service_count(&self) -> nat {
        self.service_count as nat
    }

    /// No method ID occurs twice in the table, and every service index is
    /// below the number of services.
    pub closed spec fn wf(&self) -> bool {
        &&& forall|i: int, j: int|
            0 <= i < j < self.methods@.len() ==> self.methods@[i].0 != self.methods@[j].0
        &&& forall|i: int| 0 <= i < self.methods@.len() ==> self.methods@[i].1 < self.service_count
    }

    /// An empty table.
    pub fn new() -> (r: Self)
        ensures
            r.wf(),
            r@ == Map::<u32, usize>::empty(),
            r.spec_service_count() == 0,
    {
        DispatcherBuilder { service_count: 0, methods: Vec::new() }
    }

    proof fn lemma_map_keys(m: Seq<(u32, usize)>, k: u32)
        ensures
            method_map(m).contains_key(k) <==> exists|i: int| 0 <= i < m.len() && m[i].0 == k,
        decreases m.len(),
    {
        if m.len() > 0 {
            Self::lemma_map_keys(m.drop_last(), k);
            if exists|i: int| 0 <= i < m.len() && m[i].0 == k {
                let i = choose|i: int| 0 <= i < m.len() && m[i].0 == k;
                if i < m.len() - 1 {
                    assert(m.drop_last()[i].0 == k);
                }
            }
        }
    }

    proof fn lemma_map_value(m: Seq<(u32, usize)>, i: int)
        requires
            0 <= i < m.len(),
            forall|a: int, b: int| 0 <= a < b < m.len() ==> m[a].0 != m[b].0,
        ensures
            method_map(m).contains_key(m[i].0),
            method_map(m)[m[i].0] == m[i].1,
        decreases m.len(),
    {
        if i < m.len() - 1 {
            Self::lemma_map_value(m.drop_last(), i);
        }
    }

    /// The service index registered for `method_id`, if any.
    pub fn lookup(&self, method_id: u32) -> (r: Option<usize>)
        requires
            self.wf(),
        ensures
            r == (if self@.contains_key(method_id) {
                Some(self@[method_id])
            } else {
                None
            }),
    {
        let mut i: usize = 0;
        while i < self.methods.len()
            invariant
                i <= self.methods@.len(),
                self.wf(),
                forall|k: int| 0 <= k < i ==> self.methods@[k].0 != method_id,
            decreases self.methods@.len() - i,
        {
            if self.methods[i].0 == method_id {
                proof {
                    Self::lemma_map_value(self.methods@, i as int);
                }
                return Some(self.methods[i].1);
            }
            i = i + 1;
        }
        proof {
            Self::lemma_map_keys(self.methods@, method_id);
        }
        None
    }

    /// Registers the next service for `method_ids` and returns its index. A
    /// method ID that is already registered, or that occurs twice in
    /// `method_ids`, is a collision: the table is left unchanged and the
    /// first colliding ID is returned.
    pub fn add_service(&mut self, method_ids: &[u32]) -> (r: Result<usize, u32>)
        requires
            old(self).wf(),
            old(self).spec_service_count() < usize::MAX,
        ensures
            final(self).wf(),
            match first_collision(old(self)@, method_ids@) {
                Some(i) => r == Err::<usize, u32>(method_ids@[i]) && final(self)@ == old(self)@
                    && final(self).spec_service_count() == old(self).spec_service_count(),
                None => r == Ok::<usize, u32>(old(self).spec_service_count() as usize)
                    && final(self)@ == with_methods(
                    old(self)@,
                    method_ids@,
                    old(self).spec_service_count() as usize,
                ) && final(self).spec_service_count() == old(self).spec_service_count() + 1,
            },
    {
        let ghost table = self@;
        let ghost ids = method_ids@;
        let mut i: usize = 0;
        while i < method_ids.len()
            invariant
                i <= ids.len(),
                ids == method_ids@,
                table == self@,
                self.wf(),
                forall|k: int|
                    0 <= k < i ==> !(table.contains_key(ids[k]) || exists|j: int|
                        0 <= j < k && ids[j] == ids[k]),
            decreases ids.len() - i,
        {
            let id = method_ids[i];
            let taken = self.lookup(id).is_some();
            let mut repeated = false;
            let mut j: usize = 0;
            while j < i
                invariant
                    j <= i,
                    i < ids.len(),
                    ids == method_ids@,
                    id == ids[i as int],
                    repeated == exists|k: int| 0 <= k < j && ids[k] == id,
                decreases i - j,
            {
                if method_ids[j] == id {
                    repeated = true;
                }
                j = j + 1;
            }
            if taken || repeated {
                proof {
                    let p = |x: int|
                        0 <= x < ids.len() && (table.contains_key(ids[x]) || exists|j: int|
                            0 <= j < x && ids[j] == ids[x]);
                    assert(p(i as int));
                    let c = choose|c: int|
                        #![trigger ids[c]]
                        0 <= c < ids.len() && (table.contains_key(ids[c]) || exists|j: int|
                            0 <= j < c && ids[j] == ids[c]) && forall|k: int|
                            0 <= k < c ==> !(table.contains_key(ids[k]) || exists|j: int|
                                0 <= j < k && ids[j] == ids[k]);
                    assert(0 <= i < ids.len() && (table.contains_key(ids[i as int]) || exists|
                        j: int,
                    | 0 <= j < i && ids[j] == ids[i as int]) && forall|k: int|
                        0 <= k < i ==> !(table.contains_key(ids[k]) || exists|j: int|
                            0 <= j < k && ids[j] == ids[k]));
                    if c < i {
                    } else if c > i {
                    }
                    assert(c == i);
                }
                return Err(id);
            }
            i = i + 1;
        }
        let service = self.service_count;
        let mut i: usize = 0;
        let ghost start = self.methods@;
        while i < method_ids.len()
            invariant
                i <= ids.len(),
                ids == method_ids@,
                service == self.service_count,
                service < usize::MAX,
                forall|k: int|
                    0 <= k < ids.len() ==> !(table.contains_key(ids[k]) || exists|j: int|
                        0 <= j < k && ids[j] == ids[k]),
                table == method_map(start),
                forall|a: int, b: int| 0 <= a < b < start.len() ==> start[a].0 != start[b].0,
                forall|a: int| 0 <= a < start.len() ==> start[a].1 < service,
                self.methods@.len() == start.len() + i,
                forall|a: int| 0 <= a < start.len() ==> self.methods@[a] == start[a],
                forall|a: int|
                    0 <= a < i ==> self.methods@[start.len() + a] == (ids[a], service),
            decreases ids.len() - i,
        {
            self.methods.push((method_ids[i], service));
            i = i + 1;
        }
        self.service_count = service + 1;
        proof {
            let m = self.methods@;
            assert forall|a: int, b: int| 0 <= a < b < m.len() implies m[a].0 != m[b].0 by {
                if b < start.len() {
                    assert(m[a] == start[a]);
                    assert(m[b] == start[b]);
                    assert(start[a].0 != start[b].0);
                    assert(m[a].0 != m[b].0);
                } else if a < start.len() {
                    let kb = b - start.len();
                    Self::lemma_map_keys(start, m[b].0);
                    assert(m[b].0 == ids[kb]);
                    assert(!table.contains_key(ids[kb]));
                    assert(start[a].0 == m[a].0);
                    assert(m[a].0 != m[b].0);
                } else {
                    let ka = a - start.len();
                    let kb = b - start.len();
                    assert(m[b].0 == ids[kb]);
                    assert(m[a].0 == ids[ka]);
                    assert(!(exists|j: int| 0 <= j < kb && ids[j] == ids[kb]));
                    assert(0 <= ka < kb);
                    assert(m[a].0 != m[b].0);
                }
            }
            assert forall|a: int| 0 <= a < m.len() implies m[a].1 < self.service_count by {
                if a < start.len() {
                    assert(m[a] == start[a]);
                } else {
                    assert(m[a] == (ids[a - start.len()], service));
                }
            }
            assert forall|k: u32| #![trigger method_map(m).contains_key(k)]
                method_map(m).contains_key(k) == with_methods(table, ids, service).contains_key(
                k,
            ) by {
                Self::lemma_map_keys(m, k);
                Self::lemma_map_keys(start, k);
                if ids.contains(k) {
                    let x = choose|x: int| 0 <= x < ids.len() && ids[x] == k;
                    assert(m[start.len() + x].0 == k);
                }
                if exists|i: int| 0 <= i < m.len() && m[i].0 == k {
                    let i = choose|i: int| 0 <= i < m.len() && m[i].0 == k;
                    if i >= start.len() {
                        assert(ids[i - start.len()] == k);
                    } else {
                        assert(start[i].0 == k);
                    }
                }
            }
            assert forall|k: u32| #[trigger] method_map(m).contains_key(k) implies method_map(m)[k]
                == with_methods(table, ids, service)[k] by {
                Self::lemma_map_keys(m, k);
                let i = choose|i: int| 0 <= i < m.len() && m[i].0 == k;
                Self::lemma_map_value(m, i);
                if i < start.len() {
                    Self::lemma_map_value(start, i);
                    assert(!ids.contains(k)) by {
                        if ids.contains(k) {
                            let x = choose|x: int| 0 <= x < ids.len() && ids[x] == k;
                            Self::lemma_map_keys(start, k);
                        }
                    }
                } else {
                    assert(ids[i - start.len()] == k);
                    assert(ids.contains(k));
                }
            }
            assert(method_map(m) =~= with_methods(table, ids, service));
            assert(first_collision(table, ids) is None);
        }
        Ok(service)
    }
}

/// Once a service is added, each of its method IDs routes to it, and every
/// other method keeps its route.
pub proof fn lemma_added_methods_route(table: Map<u32, usize>, ids: Seq<u32>, service: usize, k: u32)
    ensures
        ids.contains(k) ==> with_methods(table, ids, service).contains_key(k) && with_methods(
            table,
            ids,
            service,
        )[k] == service,
        !ids.contains(k) ==> (with_methods(table, ids, service).contains_key(k)
            == table.contains_key(k)) && (table.contains_key(k) ==> with_methods(
            table,
            ids,
            service,
        )[k] == table[k]),
{
}

/// The message for a request whose method no service here implements: with
/// the method's name when the registry knows it, without otherwise.
pub open spec fn unimplemented_text(method_id: u32, registry_name: Option<Seq<char>>) -> Seq<char> {
    match registry_name {
        Some(name) => "Method '"@ + name + "' (id="@ + decimal_text(method_id as nat)
            + ") exists in registry but is not implemented by any service in this cell"@,
        None => "Unknown method_id: "@ + decimal_text(method_id as nat)
            + " (not registered in global registry)"@,
    }
}

/// The error for a request whose method no registered service handles; the
/// method's full name is given when the registry knows it.
pub fn unimplemented_method(method_id: u32, registry_name: Option<&str>) -> (r: RpcError)
    ensures
        r matches RpcError::Status { code, message } && code == ErrorCode::Unimplemented
            && message@ == unimplemented_text(
            method_id,
            match registry_name {
                Some(n) => Some(n@),
                None => None,
            },
        ),
{
    let message = match registry_name {
        Some(name) => {
            let mut s = String::from_str("Method '");
            s.append(name);
            s.append("' (id=");
            push_decimal(&mut s, method_id as u64);
            s.append(") exists in registry but is not implemented by any service in this cell");
            s
        },
        None => {
            let mut s = String::from_str("Unknown method_id: ");
            push_decimal(&mut s, method_id as u64);
            s.append(" (not registered in global registry)");
            s
        },
    };
    RpcError::Status { code: ErrorCode::Unimplemented, message }
}

// =============================================================================
// Hub arguments
// =============================================================================

/// `c` is an ASCII decimal digit.
pub open spec fn is_digit(c: char) -> bool {
    48 <= (c as u32) <= 57
}

/// The value of a string of decimal digits.
pub open spec fn digits_value(s: Seq<char>) -> nat
    decreases s.len(),
{
    if s.len() == 0 {
        0
    } else {
        digits_value(s.drop_last()) * 10 + ((s.last() as u32) - 48) as nat
    }
}

/// `s` is one or more decimal digits.
pub open spec fn is_number(s: Seq<char>) -> bool {
    s.len() > 0 && forall|i: int| 0 <= i < s.len() ==> is_digit(s[i])
}

/// What `str::parse::<u16>` accepts: an optional `+` and one or more digits
/// whose value fits.
pub open spec fn parse_u16_text(s: Seq<char>) -> Option<u16> {
    let d = if s.len() > 0 && s[0] == '+' {
        s.drop_first()
    } else {
        s
    };
    if is_number(d) && digits_value(d) <= u16::MAX {
        Some(digits_value(d) as u16)
    } else {
        None
    }
}

/// What `str::parse::<i32>` accepts: an optional sign and one or more digits
/// whose value fits.
pub open spec fn parse_i32_text(s: Seq<char>) -> Option<i32> {
    if s.len() > 0 && s[0] == '-' {
        let d = s.drop_first();
        if is_number(d) && digits_value(d) <= 0x8000_0000 {
            Some((0 - digits_value(d)) as i32)
        } else {
            None
        }
    } else {
        let d = if s.len() > 0 && s[0] == '+' {
            s.drop_first()
        } else {
            s
        };
        if is_number(d) && digits_value(d) <= i32::MAX {
            Some(digits_value(d) as i32)
        } else {
            None
        }
    }
}

/// The value of the digits of `s` from index `from` on, if they are one or
/// more digits whose value is at most `bound`.
fn parse_digits(s: &str, from: usize, bound: u64) -> (r: Option<u64>)
    requires
        from <= s@.len(),
        bound <= u32::MAX,
    ensures
        r == (if is_number(s@.skip(from as int)) && digits_value(s@.skip(from as int)) <= bound {
            Some(digits_value(s@.skip(from as int)) as u64)
        } else {
            None
        }),
{
    let len = s.unicode_len();
    let ghost d = s@.skip(from as int);
    if from == len {
        return None;
    }
    let mut v: u64 = 0;
    let mut i: usize = from;
    while i < len
        invariant
            from <= i <= len,
            len == s@.len(),
            d == s@.skip(from as int),
            bound <= u32::MAX,
            v == digits_value(d.take(i - from)),
            v <= bound,
            forall|k: int| 0 <= k < i - from ==> is_digit(d[k]),
        decreases len - i,
    {
        let c = s.get_char(i);
        assert(d.take(i - from + 1).drop_last() =~= d.take(i - from));
        assert(d[i - from] == c);
        if !('0' <= c && c <= '9') {
            assert(!is_digit(d[i - from]));
            return None;
        }
        let digit = (c as u32 - 48) as u64;
        v = v * 10 + digit;
        i = i + 1;
        if v > bound {
            proof {
                lemma_digits_grow(d, i - from);
                assert(d.take(d.len() as int) =~= d);
            }
            return None;
        }
    }
    assert(d.take(i - from) =~= d);
    Some(v)
}

/// A longer prefix of digits has at least the value of a shorter one.
proof fn lemma_digits_grow(d: Seq<char>, k: int)
    requires
        0 <= k <= d.len(),
    ensures
        digits_value(d.take(k)) <= digits_value(d),
    decreases d.len() - k,
{
    if k < d.len() {
        lemma_digits_grow(d, k + 1);
        assert(d.take(k + 1).drop_last() =~= d.take(k));
    } else {
        assert(d.take(k) =~= d);
    }
}

/// Parses a `u16` as `str::parse` does.
pub fn parse_u16(s: &str) -> (r: Option<u16>)
    ensures
        r == parse_u16_text(s@),
{
    let len = s.unicode_len();
    let from: usize = if len > 0 && s.get_char(0) == '+' {
        1
    } else {
        0
    };
    assert(s@.skip(from as int) =~= (if s@.len() > 0 && s@[0] == '+' {
        s@.drop_first()
    } else {
        s@
    }));
    match parse_digits(s, from, 0xFFFF) {
        Some(v) => Some(v as u16),
        None => None,
    }
}

/// Parses an `i32` as `str::parse` does.
pub fn parse_i32(s: &str) -> (r: Option<i32>)
    ensures
        r == parse_i32_text(s@),
{
    let len = s.unicode_len();
    if len > 0 && s.get_char(0) == '-' {
        assert(s@.skip(1) =~= s@.drop_first());
        return match parse_digits(s, 1, 0x8000_0000) {
            Some(v) => Some((0 - (v as i64)) as i32),
            None => None,
        };
    }
    let from: usize = if len > 0 && s.get_char(0) == '+' {
        1
    } else {
        0
    };
    assert(s@.skip(from as int) =~= (if s@.len() > 0 && s@[0] == '+' {
        s@.drop_first()
    } else {
        s@
    }));
    match parse_digits(s, from, 0x7FFF_FFFF) {
        Some(v) => Some(v as i32),
        None => None,
    }
}

/// `p` is a prefix of `s`.
pub open spec fn has_prefix(s: Seq<char>, p: Seq<char>) -> bool {
    p.len() <= s.len() && s.take(p.len() as int) == p
}

/// What follows `prefix` in `s`, when `s` starts with it.
fn strip_prefix<'a>(s: &'a str, prefix: &str) -> (r: Option<&'a str>)
    ensures
        r matches Some(v) ==> has_prefix(s@, prefix@) && v@ == s@.skip(prefix@.len() as int),
        r is None ==> !has_prefix(s@, prefix@),
{
    let n = s.unicode_len();
    let p = prefix.unicode_len();
    if p > n {
        return None;
    }
    let mut i: usize = 0;
    while i < p
        invariant
            i <= p,
            p == prefix@.len(),
            n == s@.len(),
            p <= n,
            forall|k: int| 0 <= k < i ==> s@[k] == prefix@[k],
        decreases p - i,
    {
        if s.get_char(i) != prefix.get_char(i) {
            assert(s@.take(p as int)[i as int] != prefix@[i as int]);
            return None;
        }
        i = i + 1;
    }
    assert(s@.take(p as int) =~= prefix@);
    let v = s.substring_char(p, n);
    assert(v@ =~= s@.skip(p as int));
    Some(v)
}

/// `s` starts with `prefix`.
pub fn starts_with(s: &str, prefix: &str) -> (r: bool)
    ensures
        r == has_prefix(s@, prefix@),
{
    strip_prefix(s, prefix).is_some()
}

/// The prefix of the hub path argument.
pub open spec fn hub_path_flag() -> Seq<char> {
    "--hub-path="@
}

/// The prefix of the peer ID argument.
pub open spec fn peer_id_flag() -> Seq<char> {
    "--peer-id="@
}

/// The prefix of the doorbell descriptor argument.
pub open spec fn doorbell_fd_flag() -> Seq<char> {
    "--doorbell-fd="@
}

/// The hub path, peer ID and doorbell descriptor that the arguments `args`
/// set, read left to right: each recognised argument sets its value (a peer
/// ID or descriptor that does not parse unsets it); others are ignored.
pub open spec fn scan_args(args: Seq<Seq<char>>) -> (Option<Seq<char>>, Option<u16>, Option<i32>)
    decreases args.len(),
{
    if args.len() == 0 {
        (None, None, None)
    } else {
        let prev = scan_args(args.drop_last());
        let a = args.last();
        if has_prefix(a, hub_path_flag()) {
            (Some(a.skip(hub_path_flag().len() as int)), prev.1, prev.2)
        } else if has_prefix(a, peer_id_flag()) {
            (prev.0, parse_u16_text(a.skip(peer_id_flag().len() as int)), prev.2)
        } else if has_prefix(a, doorbell_fd_flag()) {
            (prev.0, prev.1, parse_i32_text(a.skip(doorbell_fd_flag().len() as int)))
        } else {
            prev
        }
    }
}

/// The hub arguments of a cell.
#[derive(Debug)]
pub struct ParsedArgs {
    /// Path of the hub file.
    pub hub_path: String,
    /// The cell's peer ID.
    pub peer_id: u16,
    /// File descriptor of the cell's doorbell.
    pub doorbell_fd: i32,
}

/// The text of each argument.
pub open spec fn args_view(args: Seq<String>) -> Seq<Seq<char>> {
    args.map_values(|a: String| a@)
}

/// Parses the hub arguments (`--hub-path=`, `--peer-id=`, `--doorbell-fd=`)
/// from the command line arguments after the program name; the first missing
/// one, in that order, is reported.
pub fn parse_args(args: &Vec<String>) -> (r: Result<ParsedArgs, CellError>)
    ensures
        match scan_args(args_view(args@)) {
            (None, _, _) => r matches Err(CellError::HubArgs(m)) && m@ == "Missing --hub-path"@,
            (Some(_), None, _) => r matches Err(CellError::HubArgs(m)) && m@
                == "Missing --peer-id"@,
            (Some(_), Some(_), None) => r matches Err(CellError::HubArgs(m)) && m@
                == "Missing --doorbell-fd"@,
            (Some(path), Some(peer), Some(fd)) => r matches Ok(p) && p.hub_path@ == path
                && p.peer_id == peer && p.doorbell_fd == fd,
        },
{
    let mut hub_path: Option<String> = None;
    let mut peer_id: Option<u16> = None;
    let mut doorbell_fd: Option<i32> = None;
    let ghost views = args_view(args@);
    let mut i: usize = 0;
    while i < args.len()
        invariant
            i <= args@.len(),
            views == args_view(args@),
            ({
                let st = scan_args(views.take(i as int));
                &&& match hub_path {
                    Some(h) => st.0 == Some(h@),
                    None => st.0 is None,
                }
                &&& st.1 == peer_id
                &&& st.2 == doorbell_fd
            }),
        decreases args@.len() - i,
    {
        let arg = args[i].as_str();
        proof {
            reveal_strlit("--hub-path=");
            reveal_strlit("--peer-id=");
            reveal_strlit("--doorbell-fd=");
            assert(views.take(i + 1).drop_last() =~= views.take(i as int));
            assert(views.take(i + 1).last() == arg@);
        }
        if let Some(value) = strip_prefix(arg, "--hub-path=") {
            hub_path = Some(String::from_str(value));
        } else if let Some(value) = strip_prefix(arg, "--peer-id=") {
            peer_id = parse_u16(value);
        } else if let Some(value) = strip_prefix(arg, "--doorbell-fd=") {
            doorbell_fd = parse_i32(value);
        }
        i = i + 1;
    }
    assert(views.take(args@.len() as int) =~= views);
    let hub_path = match hub_path {
        Some(h) => h,
        None => return Err(CellError::HubArgs(String::from_str("Missing --hub-path"))),
    };
    let peer_id = match peer_id {
        Some(p) => p,
        None => return Err(CellError::HubArgs(String::from_str("Missing --peer-id"))),
    };
    let doorbell_fd = match doorbell_fd {
        Some(d) => d,
        None => return Err(CellError::HubArgs(String::from_str("Missing --doorbell-fd"))),
    };
    Ok(ParsedArgs { hub_path, peer_id, doorbell_fd })
}

// =============================================================================
// Environment switches and the ready handshake's pacing
// =============================================================================

/// `c` with ASCII upper-case letters made lower-case.
pub open spec fn ascii_lower(c: char) -> char {
    if 65 <= (c as u32) <= 90 {
        ((c as u32) + 32) as char
    } else {
        c
    }
}

/// An environment value that turns a switch on: set, not empty, not `0`, and
/// not `false` in any ASCII case.
pub open spec fn truthy_text(value: Option<Seq<char>>) -> bool {
    match value {
        None => false,
        Some(s) => !(s.len() == 0 || s == "0"@ || (s.len() == 5 && forall|i: int|
            0 <= i < 5 ==> ascii_lower(#[trigger] s[i]) == "false"@[i])),
    }
}

/// Whether an environment value turns a switch on; see `truthy_text`.
pub fn is_truthy(value: Option<&str>) -> (r: bool)
    ensures
        r == truthy_text(
            match value {
                Some(s) => Some(s@),
                None => None,
            },
        ),
{
    proof {
        reveal_strlit("0");
        reveal_strlit("false");
    }
    let s = match value {
        None => {
            return false;
        },
        Some(s) => s,
    };
    let n = s.unicode_len();
    if n == 0 {
        return false;
    }
    if n == 1 && s.get_char(0) == '0' {
        assert(s@ =~= "0"@);
        return false;
    }
    if n == 5 {
        let word = "false";
        let mut i: usize = 0;
        let mut same = true;
        while i < 5
            invariant
                i <= 5,
                s@.len() == 5,
                word@ == "false"@,
                same == forall|k: int| 0 <= k < i ==> ascii_lower(#[trigger] s@[k]) == word@[k],
            decreases 5 - i,
        {
            proof {
                reveal_strlit("false");
            }
            let c = s.get_char(i);
            let lower = if 'A' <= c && c <= 'Z' {
                ((c as u32) + 32) as u8 as char
            } else {
                c
            };
            assert(lower == ascii_lower(c));
            if lower != word.get_char(i) {
                same = false;
            }
            i = i + 1;
        }
        if same {
            return false;
        }
        assert(s@ != "0"@);
        return true;
    }
    assert(s@ != "0"@) by {
        if s@ == "0"@ {
            assert(s@.len() == 1);
        }
    }
    true
}

/// The ready handshake's total timeout in milliseconds: the first value
/// configured, or 10 seconds.
pub fn ready_timeout_ms(primary: Option<u64>, fallback: Option<u64>) -> (r: u64)
    ensures
        r == match primary {
            Some(v) => v,
            None => match fallback {
                Some(v) => v,
                None => 10_000,
            },
        },
{
    match primary {
        Some(v) => v,
        None => match fallback {
            Some(v) => v,
            None => 10_000,
        },
    }
}

/// The wait before the next ready attempt: double the last one, at most
/// 200 ms.
pub fn next_ready_delay(delay_ms: u64) -> (r: u64)
    requires
        delay_ms <= u64::MAX / 2,
    ensures
        r == (if 2 * delay_ms < 200 {
            2 * delay_ms
        } else {
            200
        }),
{
    let doubled = delay_ms * 2;
    if doubled < 200 {
        doubled
    } else {
        200
    }
}

/// How often waiting for the hub file checks for it: once per 100 ms of the
/// timeout.
pub fn hub_wait_checks(timeout_ms: u64) -> (r: u64)
    ensures
        r == timeout_ms / 100,
{
    timeout_ms / 100
}

/// What waiting for the hub file does after a check.
#[derive(Clone, Copy, Debug, PartialEq, Eq, Structural)]
pub enum HubWaitStep {
    /// The file is there.
    Found,
    /// Sleep 100 ms, then check again.
    SleepThenCheck,
    /// That was the last check: the wait timed out.
    TimedOut,
}

/// The step after check `i` (from 0) of `checks`, which found the hub file
/// or not.
pub fn hub_wait_step(i: u64, checks: u64, exists: bool) -> (r: HubWaitStep)
    requires
        i < checks,
    ensures
        r == (if exists {
            HubWaitStep::Found
        } else if i + 1 < checks {
            HubWaitStep::SleepThenCheck
        } else {
            HubWaitStep::TimedOut
        }),
{
    if exists {
        HubWaitStep::Found
    } else if i < checks - 1 {
        HubWaitStep::SleepThenCheck
    } else {
        HubWaitStep::TimedOut
    }
}

/// A service's response, addressed to the request it answers: it goes back
/// on the request's channel under the request's message ID; everything else
/// is the service's.
pub fn address_response(response: Frame, request: &MsgDescHot) -> (r: Frame)
    ensures
        r.desc == (MsgDescHot {
            channel_id: request.channel_id,
            msg_id: request.msg_id,
            ..response.desc
        }),
        r.payload == response.payload,
{
    let mut response = response;
    response.desc.channel_id = request.channel_id;
    response.desc.msg_id = request.msg_id;
    response
}

} // verus!
