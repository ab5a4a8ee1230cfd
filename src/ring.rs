//! Slot arithmetic of the circular log: where each record line goes in a
//! file that holds at most `capacity` lines of equal length.
use vstd::prelude::*;
use vstd::string::*;
use crate::record::{encode_line, line_byte_len, line_of, GpuInfo};

verus! {

/// The writer's state. The log file itself is owned by the caller, which
/// reports its current length on each write.
pub struct RingLog {
    capacity: u64,
    cursor: u64,
}

/// Whether a log of `len` bytes already holds `capacity` lines of
/// `entry_len` bytes.
pub open spec fn is_full(capacity: nat, len: nat, entry_len: nat) -> bool {
    len >= capacity * entry_len
}

/// Where the next line goes: at the cursor's slot once the log is full,
/// else at the end of the file.
pub open spec fn offset_spec(capacity: nat, cursor: nat, len: nat, entry_len: nat) -> nat {
    if is_full(capacity, len, entry_len) {
        cursor * entry_len
    } else {
        len
    }
}

/// The cursor after a write: advanced cyclically only when the log was full.
pub open spec fn next_cursor(capacity: nat, cursor: nat, len: nat, entry_len: nat) -> nat {
    if is_full(capacity, len, entry_len) {
        (cursor + 1) % capacity
    } else {
        cursor
    }
}

/// File length after writing `entry_len` bytes at `offset` over a file of
/// `len` bytes.
pub open spec fn len_after_write(len: nat, offset: nat, entry_len: nat) -> nat {
    if offset + entry_len > len {
        offset + entry_len
    } else {
        len
    }
}

/// File length and cursor after one more write of `entry_len` bytes to a
/// log whose file length and cursor are `st`.
pub open spec fn write_step(capacity: nat, entry_len: nat, st: (nat, nat)) -> (nat, nat) {
    let (len, cur) = st;
    let off = offset_spec(capacity, cur, len, entry_len);
    (len_after_write(len, off, entry_len), next_cursor(capacity, cur, len, entry_len))
}

/// File length and cursor after `k` writes of `entry_len` bytes each,
/// starting from `st`.
pub open spec fn writes_from(capacity: nat, entry_len: nat, st: (nat, nat), k: nat) -> (nat, nat)
    decreases k,
{
    if k == 0 {
        st
    } else {
        write_step(capacity, entry_len, writes_from(capacity, entry_len, st, (k - 1) as nat))
    }
}

/// File length and cursor after `n` writes of `entry_len` bytes each,
/// starting from an empty file.
pub open spec fn state_after(capacity: nat, entry_len: nat, n: nat) -> (nat, nat) {
    writes_from(capacity, entry_len, (0, 0), n)
}

/// Offset of the write that follows `n` earlier writes.
pub open spec fn offset_of_write(capacity: nat, entry_len: nat, n: nat) -> nat {
    let (len, cur) = state_after(capacity, entry_len, n);
    offset_spec(capacity, cur, len, entry_len)
}

impl RingLog {
    pub closed spec fn spec_capacity(&self) -> nat {
        self.capacity as nat
    }

    pub closed spec fn spec_cursor(&self) -> nat {
        self.cursor as nat
    }

    pub open spec fn wf(&self) -> bool {
        self.spec_capacity() > 0 && self.spec_cursor() < self.spec_capacity()
    }

    /// A writer for a freshly truncated log that keeps `capacity` lines.
    pub fn new(capacity: u64) -> (r: RingLog)
        requires
            capacity > 0,
        ensures
            r.wf(),
            r.spec_capacity() == capacity,
            r.spec_cursor() == 0,
    {
        RingLog { capacity, cursor: 0 }
    }

    pub fn capacity(&self) -> (r: u64)
        ensures
            r == self.spec_capacity(),
    {
        self.capacity
    }

    pub fn cursor(&self) -> (r: u64)
        ensures
            r == self.spec_cursor(),
    {
        self.cursor
    }

    /// Chooses the offset for a line of `entry_len` bytes in a log file that
    /// is `file_len` bytes long now, and advances the cursor when the write
    /// overwrites a slot.
    pub fn place(&mut self, file_len: u64, entry_len: u64) -> (offset: u64)
        requires
            old(self).wf(),
            old(self).spec_capacity() * entry_len <= u64::MAX,
        ensures
            final(self).wf(),
            final(self).spec_capacity() == old(self).spec_capacity(),
            offset == offset_spec(
                old(self).spec_capacity(),
                old(self).spec_cursor(),
                file_len as nat,
                entry_len as nat,
            ),
            final(self).spec_cursor() == next_cursor(
                old(self).spec_capacity(),
                old(self).spec_cursor(),
                file_len as nat,
                entry_len as nat,
            ),
    {
        let limit = self.capacity * entry_len;
        if file_len >= limit {
            proof {
                vstd::arithmetic::mul::lemma_mul_inequality(
                    self.cursor as int,
                    self.capacity as int,
                    entry_len as int,
                );
            }
            let offset = self.cursor * entry_len;
            self.cursor = (self.cursor + 1) % self.capacity;
            offset
        } else {
            file_len
        }
    }
}

impl RingLog {
    /// Everything a write of `rec`, sampled at `timestamp`, decides before
    /// the bytes go to a log file that is `file_len` bytes long now: the
    /// line, and the offset it goes to. The cursor advances as `place`
    /// says. `None`, with the state unchanged, when `capacity` lines of this
    /// length would not fit in a 64-bit file size.
    pub fn prepare_write(&mut self, timestamp: u64, rec: &GpuInfo, file_len: u64) -> (r: Option<
        (String, u64),
    >)
        requires
            old(self).wf(),
        ensures
            final(self).wf(),
            final(self).spec_capacity() == old(self).spec_capacity(),
            ({
                let line = line_of(timestamp, rec@);
                let e = line_byte_len(timestamp, rec@);
                match r {
                    None => old(self).spec_capacity() * e > u64::MAX && *final(self) == *old(self),
                    Some((out, offset)) => {
                        &&& old(self).spec_capacity() * e <= u64::MAX
                        &&& out@ == line
                        &&& offset == offset_spec(
                            old(self).spec_capacity(),
                            old(self).spec_cursor(),
                            file_len as nat,
                            e,
                        )
                        &&& final(self).spec_cursor() == next_cursor(
                            old(self).spec_capacity(),
                            old(self).spec_cursor(),
                            file_len as nat,
                            e,
                        )
                    },
                }
            }),
    {
        let line = encode_line(timestamp, rec);
        let entry_len = line.as_str().len();
        if self.capacity.checked_mul(entry_len as u64).is_none() {
            return None;
        }
        let offset = self.place(file_len, entry_len as u64);
        Some((line, offset))
    }
}

proof fn lemma_state_after(capacity: nat, entry_len: nat, n: nat)
    requires
        capacity > 0,
        entry_len > 0,
    ensures
        n <= capacity ==> state_after(capacity, entry_len, n) == (n * entry_len, 0nat),
        n >= capacity ==> state_after(capacity, entry_len, n) == (
            capacity * entry_len,
            ((n - capacity) as nat) % capacity,
        ),
    decreases n,
{
    if n > 0 {
        let m = (n - 1) as nat;
        lemma_state_after(capacity, entry_len, m);
        if m < capacity {
            assert(m * entry_len < capacity * entry_len) by (nonlinear_arith)
                requires
                    m < capacity,
                    entry_len > 0,
            ;
            assert(m * entry_len + entry_len == n * entry_len) by (nonlinear_arith)
                requires
                    n == m + 1,
            ;
            if n == capacity {
                assert(((n - capacity) as nat) % capacity == 0) by {
                    vstd::arithmetic::div_mod::lemma_small_mod(0, capacity);
                }
            }
        } else {
            let c = ((m - capacity) as nat) % capacity;
            assert(c < capacity) by {
                vstd::arithmetic::div_mod::lemma_mod_bound((m - capacity) as int, capacity as int);
            }
            assert(c * entry_len + entry_len <= capacity * entry_len) by (nonlinear_arith)
                requires
                    c < capacity,
            ;
            assert((c + 1) % capacity == ((n - capacity) as nat) % capacity) by {
                vstd::arithmetic::div_mod::lemma_add_mod_noop(
                    (m - capacity) as int,
                    1,
                    capacity as int,
                );
                vstd::arithmetic::div_mod::lemma_mod_bound((m - capacity) as int, capacity as int);
                vstd::arithmetic::div_mod::lemma_small_mod(
                    ((m - capacity) as nat) % capacity,
                    capacity,
                );
                vstd::arithmetic::div_mod::lemma_add_mod_noop(c as int, 1, capacity as int);
            }
        }
    }
}

/// Once at least `capacity` lines have been written, the log is exactly
/// `capacity * entry_len` bytes long, and it never exceeds that length.
pub proof fn lemma_log_size_bounded(capacity: nat, entry_len: nat, n: nat)
    requires
        capacity > 0,
    ensures
        n >= capacity ==> state_after(capacity, entry_len, n).0 == capacity * entry_len,
        state_after(capacity, entry_len, n).0 <= capacity * entry_len,
{
    if entry_len > 0 {
        lemma_state_after(capacity, entry_len, n);
        if n <= capacity {
            assert(n * entry_len <= capacity * entry_len) by (nonlinear_arith)
                requires
                    n <= capacity,
            ;
        }
    } else {
        lemma_zero_length_stays_empty(capacity, n);
    }
}

proof fn lemma_zero_length_stays_empty(capacity: nat, n: nat)
    requires
        capacity > 0,
    ensures
        state_after(capacity, 0, n).0 == 0,
        state_after(capacity, 0, n).1 < capacity,
    decreases n,
{
    if n > 0 {
        lemma_zero_length_stays_empty(capacity, (n - 1) as nat);
        let (len, cur) = state_after(capacity, 0, (n - 1) as nat);
        assert(cur * 0 == 0) by (nonlinear_arith);
        vstd::arithmetic::div_mod::lemma_mod_bound((cur + 1) as int, capacity as int);
    }
}

/// The first `capacity` writes append at offsets `0, E, 2E, ...`; from then
/// on write `n` goes to slot `(n - capacity) mod capacity`, so write number
/// `capacity` overwrites the oldest line at offset 0 and the cursor cycles.
pub proof fn lemma_write_offsets(capacity: nat, entry_len: nat, n: nat)
    requires
        capacity > 0,
        entry_len > 0,
    ensures
        n < capacity ==> offset_of_write(capacity, entry_len, n) == n * entry_len,
        n >= capacity ==> offset_of_write(capacity, entry_len, n) == (((n - capacity) as nat)
            % capacity) * entry_len,
        n == capacity ==> offset_of_write(capacity, entry_len, n) == 0,
        n >= capacity ==> state_after(capacity, entry_len, n + 1).1 == ((n + 1 - capacity) as nat)
            % capacity,
{
    lemma_state_after(capacity, entry_len, n);
    lemma_state_after(capacity, entry_len, n + 1);
    if n < capacity {
        assert(n * entry_len < capacity * entry_len) by (nonlinear_arith)
            requires
                n < capacity,
                entry_len > 0,
        ;
    }
    if n == capacity {
        vstd::arithmetic::div_mod::lemma_small_mod(0, capacity);
        assert(0 * entry_len == 0);
    }
}

} // verus!
