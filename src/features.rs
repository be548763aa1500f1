//! Feature flags: a bitfield of optional behaviours, tagged at the type level by the context
//! (connection init, node announcement, channel announcement) in which it appears.
//!
//! Flags are held little-endian (byte 0 holds bits 0 to 7) and written big-endian, after a
//! two-byte big-endian length.

use core::marker::PhantomData;
use vstd::prelude::*;

verus! {

/// Context of an `init` message.
pub struct InitContext {}

/// Context of a `node_announcement` message.
pub struct NodeContext {}

/// Context of a `channel_announcement` message.
pub struct ChannelContext {}

/// The contexts in which a feature set may appear.
pub trait Context {}

impl Context for InitContext {}

impl Context for NodeContext {}

impl Context for ChannelContext {}

/// Contexts in which `option_data_loss_protect` (bits 0/1) is meaningful.
pub trait DataLossProtect: Context {}

impl DataLossProtect for InitContext {}

impl DataLossProtect for NodeContext {}

/// Contexts in which `initial_routing_sync` (bit 3) is meaningful.
pub trait InitialRoutingSync: Context {}

impl InitialRoutingSync for InitContext {}

/// Contexts in which `option_upfront_shutdown_script` (bits 4/5) is meaningful.
pub trait UpfrontShutdownScript: Context {}

impl UpfrontShutdownScript for InitContext {}

impl UpfrontShutdownScript for NodeContext {}

/// Contexts in which `var_onion_optin` (bits 8/9) is meaningful.
pub trait VariableLengthOnion: Context {}

impl VariableLengthOnion for InitContext {}

impl VariableLengthOnion for NodeContext {}

/// The set of features which a node implements, in the context `T`.
pub struct Features<T: Context> {
    flags: Vec<u8>,
    mark: PhantomData<T>,
}

/// Features as they appear in an `init` message.
pub type InitFeatures = Features<InitContext>;

/// Features as they appear in a `node_announcement` message.
pub type NodeFeatures = Features<NodeContext>;

/// Features as they appear in a `channel_announcement` message.
pub type ChannelFeatures = Features<ChannelContext>;

/// Error while reading a serialized value.
#[derive(Debug, Clone, Copy, PartialEq, Eq, Structural)]
pub enum DecodeError {
    /// The input ended before the value did.
    ShortRead,
    /// The input holds a value that is not valid.
    InvalidValue,
}

/// The even bits of byte `i` that are not understood: setting one of them makes the set
/// unusable for a peer that does not know it.
pub open spec fn unknown_required_mask(i: int) -> u8 {
    if i == 0 {
        0b0100_0100u8
    } else if i == 1 {
        0b0101_0100u8
    } else {
        0b0101_0101u8
    }
}

/// The bits of byte `i`, even or odd, that are not understood.
pub open spec fn unknown_supported_mask(i: int) -> u8 {
    if i == 0 {
        0b1100_0100u8
    } else if i == 1 {
        0b1111_1100u8
    } else {
        0b1111_1111u8
    }
}

/// Some byte of `flags` has a bit of `mask` set.
pub open spec fn any_masked(flags: Seq<u8>, mask: spec_fn(int) -> u8) -> bool {
    exists|i: int| 0 <= i < flags.len() && #[trigger] flags[i] & mask(i) != 0
}

/// The flags that this implementation sets in `init` and `node_announcement` messages:
/// optional data-loss-protect, optional upfront-shutdown-script, optional var-onion.
pub open spec fn supported_flags() -> Seq<u8> {
    seq![0b0010_0010u8, 0b0000_0010u8]
}

/// The bytes of `flags` in the opposite order.
pub open spec fn reversed(flags: Seq<u8>) -> Seq<u8> {
    Seq::new(flags.len(), |i: int| flags[flags.len() - 1 - i])
}

/// Big-endian encoding of a 16-bit length.
pub open spec fn be16(n: nat) -> Seq<u8> {
    seq![(n / 256) as u8, (n % 256) as u8]
}

/// Wire form of a feature set: big-endian length, then the flags most significant byte first.
pub open spec fn serialized_flags(flags: Seq<u8>) -> Seq<u8> {
    be16(flags.len()) + reversed(flags)
}

/// Reading a serialized feature set from the front of `data`: the flags (little-endian) and
/// the number of bytes consumed, or `None` where `data` is too short.
pub open spec fn parsed_flags(data: Seq<u8>) -> Option<(Seq<u8>, nat)> {
    if data.len() < 2 {
        None
    } else {
        let n = data[0] as nat * 256 + data[1] as nat;
        if data.len() < 2 + n {
            None
        } else {
            Some((reversed(data.subrange(2, 2 + n as int)), (2 + n) as nat))
        }
    }
}

/// Byte `i` of `flags`, or zero past its end.
pub open spec fn padded_byte(flags: Seq<u8>, i: int) -> u8 {
    if 0 <= i < flags.len() {
        flags[i]
    } else {
        0u8
    }
}

/// The byte-wise OR of two flag sets, as long as the longer of them.
pub open spec fn or_flags(a: Seq<u8>, b: Seq<u8>) -> Seq<u8> {
    let n = if a.len() >= b.len() { a.len() } else { b.len() };
    Seq::new(
        n,
        |i: int|
            (if i < a.len() { a[i] } else { 0u8 }) | (if i < b.len() { b[i] } else { 0u8 }),
    )
}

/// The init-context flags that keep their meaning in a node announcement: bytes 0 and 1 with
/// initial_routing_sync, gossip_queries, gossip_queries_ex, option_static_remotekey and
/// payment_secret blanked, later bytes dropped.
pub open spec fn node_relevant_flags(init: Seq<u8>) -> Seq<u8> {
    Seq::new(
        if init.len() < 2 { init.len() } else { 2 },
        |i: int| if i == 0 { init[0] & 0b0011_0011u8 } else { init[1] & 0b0000_0011u8 },
    )
}

impl<T: Context> PartialEq for Features<T> {
    /// Whether both sets hold the same flags.
    fn eq(&self, o: &Features<T>) -> (r: bool) {
        let n = self.flags.len();
        if n != o.flags.len() {
            return false;
        }
        let mut i: usize = 0;
        while i < n
            invariant
                n == self.flags@.len(),
                n == o.flags@.len(),
                i <= n,
                forall|j: int| 0 <= j < i ==> self.flags@[j] == o.flags@[j],
            decreases n - i,
        {
            if self.flags[i] != o.flags[i] {
                return false;
            }
            i = i + 1;
        }
        assert(self.flags@ =~= o.flags@);
        true
    }
}

impl<T: Context> vstd::std_specs::cmp::PartialEqSpecImpl for Features<T> {
    open spec fn obeys_eq_spec() -> bool {
        true
    }

    open spec fn eq_spec(&self, o: &Features<T>) -> bool {
        self.flags() == o.flags()
    }
}

impl<T: Context> Features<T> {
    /// The flags, little-endian.
    pub closed spec fn flags(&self) -> Seq<u8> {
        self.flags@
    }

    /// A feature set with no feature set.
    pub fn empty() -> (r: Features<T>)
        ensures
            r.flags() == Seq::<u8>::empty(),
    {
        Features { flags: Vec::new(), mark: PhantomData }
    }

    /// A feature set from its flags, little-endian.
    pub fn from_le_bytes(flags: Vec<u8>) -> (r: Features<T>)
        ensures
            r.flags() == flags@,
    {
        Features { flags, mark: PhantomData }
    }

    /// The flags, little-endian.
    pub fn le_flags(&self) -> (r: &Vec<u8>)
        ensures
            r@ == self.flags(),
    {
        &self.flags
    }

    /// A copy of this feature set.
    pub fn clone(&self) -> (r: Features<T>)
        ensures
            r.flags() == self.flags(),
    {
        Features { flags: self.flags.clone(), mark: PhantomData }
    }

    /// Whether an even bit that this implementation does not understand is set.
    pub fn requires_unknown_bits(&self) -> (r: bool)
        ensures
            r == any_masked(self.flags(), |i: int| unknown_required_mask(i)),
    {
        let n = self.flags.len();
        let mut i: usize = 0;
        while i < n
            invariant
                n == self.flags@.len(),
                i <= n,
                forall|j: int| 0 <= j < i ==> #[trigger] self.flags@[j] & unknown_required_mask(j) == 0,
            decreases n - i,
        {
            let byte = self.flags[i];
            let masked = if i == 0 {
                byte & 0b0100_0100u8
            } else if i == 1 {
                byte & 0b0101_0100u8
            } else {
                byte & 0b0101_0101u8
            };
            if masked != 0 {
                return true;
            }
            i = i + 1;
        }
        false
    }

    /// Whether a bit, even or odd, that this implementation does not understand is set.
    pub fn supports_unknown_bits(&self) -> (r: bool)
        ensures
            r == any_masked(self.flags(), |i: int| unknown_supported_mask(i)),
    {
        let n = self.flags.len();
        let mut i: usize = 0;
        while i < n
            invariant
                n == self.flags@.len(),
                i <= n,
                forall|j: int| 0 <= j < i ==> #[trigger] self.flags@[j] & unknown_supported_mask(j) == 0,
            decreases n - i,
        {
            let byte = self.flags[i];
            let masked = if i == 0 {
                byte & 0b1100_0100u8
            } else if i == 1 {
                byte & 0b1111_1100u8
            } else {
                byte & 0b1111_1111u8
            };
            if masked != 0 {
                return true;
            }
            i = i + 1;
        }
        false
    }

    /// The number of flag bytes, without the length prefix of the serialized form.
    pub fn byte_count(&self) -> (r: usize)
        ensures
            r == self.flags().len(),
    {
        self.flags.len()
    }

    /// Extends the flags with zero bytes up to `n` bytes.
    fn pad_to(&mut self, n: usize)
        ensures
            final(self).flags().len() == if old(self).flags().len() >= n {
                old(self).flags().len()
            } else {
                n as nat
            },
            forall|i: int|
                0 <= i < final(self).flags().len() ==> #[trigger] final(self).flags()[i] == if i
                    < old(self).flags().len() {
                    old(self).flags()[i]
                } else {
                    0u8
                },
    {
        while self.flags.len() < n
            invariant
                self.flags@.len() >= old(self).flags@.len(),
                self.flags@.len() <= n || self.flags@.len() == old(self).flags@.len(),
                forall|i: int|
                    0 <= i < self.flags@.len() ==> #[trigger] self.flags@[i] == if i < old(
                        self,
                    ).flags@.len() {
                        old(self).flags@[i]
                    } else {
                        0u8
                    },
            decreases n - self.flags@.len(),
        {
            self.flags.push(0u8);
        }
    }

    /// Sets an even bit (bit 14) that no implementation understands.
    pub fn set_require_unknown_bits(&mut self)
        ensures
            final(self).flags() == Seq::new(
                if old(self).flags().len() >= 2 { old(self).flags().len() } else { 2 },
                |i: int|
                    (if i < old(self).flags().len() { old(self).flags()[i] } else { 0u8 }) | (if i
                        == 1 { 0x40u8 } else { 0u8 }),
            ),
    {
        self.pad_to(2);
        let b = self.flags[1];
        self.flags.set(1, b | 0x40u8);
        proof {
            let n = if old(self).flags().len() >= 2 { old(self).flags().len() } else { 2 };
            assert forall|i: int| 0 <= i < n implies #[trigger] self.flags@[i] == (if i < old(
                self,
            ).flags().len() { old(self).flags()[i] } else { 0u8 }) | (if i == 1 { 0x40u8 } else { 0u8 }) by {
                let x = self.flags@[i];
                assert(x | 0u8 == x) by (bit_vector);
            }
            assert(self.flags@ =~= Seq::new(
                n,
                |i: int|
                    (if i < old(self).flags().len() { old(self).flags()[i] } else { 0u8 }) | (if i
                        == 1 { 0x40u8 } else { 0u8 }),
            ));
        }
    }

    /// Clears bit 14, then drops the second byte where only it and the first remain and it is
    /// zero.
    pub fn clear_require_unknown_bits(&mut self)
        ensures
            ({
                let padded = Seq::new(
                    if old(self).flags().len() >= 2 { old(self).flags().len() } else { 2 },
                    |i: int|
                        if i == 1 {
                            padded_byte(old(self).flags(), 1) & 0b1011_1111u8
                        } else {
                            padded_byte(old(self).flags(), i)
                        },
                );
                final(self).flags() == if padded.len() == 2 && padded[1] == 0 {
                    padded.subrange(0, 1)
                } else {
                    padded
                }
            }),
    {
        self.pad_to(2);
        let b = self.flags[1];
        self.flags.set(1, b & 0b1011_1111u8);
        let ghost padded = self.flags@;
        if self.flags.len() == 2 && self.flags[1] == 0 {
            self.flags.truncate(1);
        }
        proof {
            let n = if old(self).flags().len() >= 2 { old(self).flags().len() } else { 2 };
            let q = Seq::new(
                n,
                |i: int|
                    if i == 1 {
                        padded_byte(old(self).flags(), 1) & 0b1011_1111u8
                    } else {
                        padded_byte(old(self).flags(), i)
                    },
            );
            if old(self).flags().len() < 2 {
                assert(0u8 & 0b1011_1111u8 == 0u8) by (bit_vector);
            }
            assert(padded =~= q);
            if padded.len() == 2 && padded[1] == 0 {
                assert(self.flags@ =~= q.subrange(0, 1));
            }
        }
    }

    /// The wire form: big-endian length, then the flags most significant byte first.
    pub fn write(&self) -> (r: Vec<u8>)
        requires
            self.flags().len() <= 0xffff,
        ensures
            r@ == serialized_flags(self.flags()),
    {
        let n = self.flags.len();
        let mut out: Vec<u8> = Vec::new();
        out.push((n / 256) as u8);
        out.push((n % 256) as u8);
        let mut k: usize = n;
        while k > 0
            invariant
                n == self.flags@.len(),
                k <= n,
                out@.len() == 2 + (n - k),
                out@[0] == (n / 256) as u8,
                out@[1] == (n % 256) as u8,
                forall|j: int| 0 <= j < n - k ==> #[trigger] out@[2 + j] == self.flags@[n - 1 - j],
            decreases k,
        {
            k = k - 1;
            out.push(self.flags[k]);
        }
        proof {
            let sf = serialized_flags(self.flags());
            assert forall|i: int| 0 <= i < out@.len() implies out@[i] == sf[i] by {
                if i >= 2 {
                    assert(out@[2 + (i - 2)] == self.flags@[n - 1 - (i - 2)]);
                }
            }
            assert(out@ =~= sf);
        }
        out
    }

    /// Reads a feature set from the front of `data`, as `write` lays it out, with the number of
    /// bytes consumed.
    pub fn read(data: &[u8]) -> (r: Result<(Features<T>, usize), DecodeError>)
        ensures
            match parsed_flags(data@) {
                Some((flags, used)) => r matches Ok((f, u)) && f.flags() == flags && u == used,
                None => r == Err::<(Features<T>, usize), DecodeError>(DecodeError::ShortRead),
            },
    {
        if data.len() < 2 {
            return Err(DecodeError::ShortRead);
        }
        let n: usize = data[0] as usize * 256 + data[1] as usize;
        if data.len() - 2 < n {
            return Err(DecodeError::ShortRead);
        }
        let len = data.len();
        let mut flags: Vec<u8> = Vec::new();
        let mut k: usize = n;
        while k > 0
            invariant
                len == data@.len(),
                n + 2 <= data@.len(),
                k <= n,
                flags@.len() == n - k,
                forall|j: int| 0 <= j < n - k ==> #[trigger] flags@[j] == data@[2 + n - 1 - j],
            decreases k,
        {
            k = k - 1;
            assert(2 + k < data@.len());
            flags.push(data[2 + k]);
        }
        assert(flags@ =~= reversed(data@.subrange(2, 2 + n as int)));
        Ok((Features { flags, mark: PhantomData }, n + 2))
    }
}

/// Reading back what `write` produced yields the same flags and consumes every byte.
pub proof fn lemma_features_round_trip(flags: Seq<u8>)
    requires
        flags.len() <= 0xffff,
    ensures
        parsed_flags(serialized_flags(flags)) == Some((flags, (flags.len() + 2) as nat)),
{
    let data = serialized_flags(flags);
    let n = flags.len();
    assert((n / 256) as u8 as nat * 256 + (n % 256) as u8 as nat == n);
    assert(reversed(data.subrange(2, 2 + n as int)) =~= flags);
}

impl<T: DataLossProtect> Features<T> {
    /// Whether `option_data_loss_protect` is set, as required or optional.
    pub fn supports_data_loss_protect(&self) -> (r: bool)
        ensures
            r == (self.flags().len() > 0 && self.flags()[0] & 3 != 0),
    {
        self.flags.len() > 0 && (self.flags[0] & 3) != 0
    }
}

impl<T: UpfrontShutdownScript> Features<T> {
    /// Whether `option_upfront_shutdown_script` is set, as required or optional.
    pub fn supports_upfront_shutdown_script(&self) -> (r: bool)
        ensures
            r == (self.flags().len() > 0 && self.flags()[0] & 0b0011_0000 != 0),
    {
        self.flags.len() > 0 && (self.flags[0] & 0b0011_0000) != 0
    }

    /// Flips the optional upfront-shutdown-script bit (bit 5).
    pub fn unset_upfront_shutdown_script(&mut self)
        requires
            old(self).flags().len() > 0,
        ensures
            final(self).flags() == old(self).flags().update(0, old(self).flags()[0] ^ 0b0010_0000),
    {
        let b = self.flags[0];
        self.flags.set(0, b ^ 0b0010_0000u8);
    }
}

impl<T: VariableLengthOnion> Features<T> {
    /// Whether `var_onion_optin` is set, as required or optional.
    pub fn supports_variable_length_onion(&self) -> (r: bool)
        ensures
            r == (self.flags().len() > 1 && self.flags()[1] & 3 != 0),
    {
        self.flags.len() > 1 && (self.flags[1] & 3) != 0
    }
}

impl<T: InitialRoutingSync> Features<T> {
    /// Whether `initial_routing_sync` (bit 3) is set.
    pub fn initial_routing_sync(&self) -> (r: bool)
        ensures
            r == (self.flags().len() > 0 && self.flags()[0] & 0b1000 != 0),
    {
        self.flags.len() > 0 && (self.flags[0] & 0b1000) != 0
    }

    /// Sets `initial_routing_sync` (bit 3).
    pub fn set_initial_routing_sync(&mut self)
        ensures
            final(self).flags() == if old(self).flags().len() == 0 {
                seq![0b1000u8]
            } else {
                old(self).flags().update(0, old(self).flags()[0] | 0b1000)
            },
    {
        if self.flags.len() == 0 {
            self.flags.push(0b1000u8);
        } else {
            let b = self.flags[0];
            self.flags.set(0, b | 0b1000u8);
        }
        proof {
            if old(self).flags().len() == 0 {
                assert(self.flags@ =~= seq![0b1000u8]);
            }
        }
    }
}

impl InitFeatures {
    /// The features this implementation supports in an `init` message.
    pub fn supported() -> (r: InitFeatures)
        ensures
            r.flags() == supported_flags(),
    {
        let mut flags: Vec<u8> = Vec::new();
        flags.push(0b0010_0010u8);
        flags.push(0b0000_0010u8);
        assert(flags@ =~= supported_flags());
        Features { flags, mark: PhantomData }
    }

    /// The wire form of the features up to and including bit 13: at most two bytes, with bits
    /// 14 and 15 cleared.
    pub fn write_up_to_13(&self) -> (r: Vec<u8>)
        ensures
            ({
                let len = if self.flags().len() < 2 { self.flags().len() } else { 2 };
                &&& r@.len() == 2 + len
                &&& r@[0] == 0 && r@[1] == len as u8
                &&& len == 2 ==> r@[2] == self.flags()[1] & 0b0011_1111u8 && r@[3]
                    == self.flags()[0]
                &&& len == 1 ==> r@[2] == self.flags()[0]
            }),
    {
        let len: usize = if self.flags.len() < 2 { self.flags.len() } else { 2 };
        let mut out: Vec<u8> = Vec::new();
        out.push(0u8);
        out.push(len as u8);
        if len == 2 {
            out.push(self.flags[1] & 0b0011_1111u8);
        }
        if len >= 1 {
            out.push(self.flags[0]);
        }
        out
    }

    /// The union of two init feature sets, as long as the longer of them.
    pub fn or(self, o: InitFeatures) -> (r: InitFeatures)
        ensures
            r.flags() == or_flags(self.flags(), o.flags()),
    {
        let mut s = self;
        let ghost a = s.flags@;
        s.pad_to(o.flags.len());
        let n = o.flags.len();
        let mut i: usize = 0;
        while i < n
            invariant
                n == o.flags@.len(),
                i <= n,
                s.flags@.len() == or_flags(a, o.flags@).len(),
                forall|j: int|
                    0 <= j < s.flags@.len() ==> #[trigger] s.flags@[j] == if j < i {
                        or_flags(a, o.flags@)[j]
                    } else {
                        padded_byte(a, j)
                    },
            decreases n - i,
        {
            let b = s.flags[i] | o.flags[i];
            s.flags.set(i, b);
            i = i + 1;
        }
        proof {
            assert forall|j: int| 0 <= j < s.flags@.len() implies #[trigger] s.flags@[j] == or_flags(
                a,
                o.flags@,
            )[j] by {
                if j >= n {
                    let x = padded_byte(a, j);
                    assert(x | 0u8 == x) by (bit_vector);
                }
            }
            assert(s.flags@ =~= or_flags(a, o.flags@));
        }
        s
    }
}

impl NodeFeatures {
    /// The features this implementation supports in a `node_announcement` message.
    pub fn supported() -> (r: NodeFeatures)
        ensures
            r.flags() == supported_flags(),
    {
        let mut flags: Vec<u8> = Vec::new();
        flags.push(0b0010_0010u8);
        flags.push(0b0000_0010u8);
        assert(flags@ =~= supported_flags());
        Features { flags, mark: PhantomData }
    }

    /// The init-context flags that mean the same in a node announcement, with the others
    /// blanked.
    pub fn with_known_relevant_init_flags(init_ctx: &InitFeatures) -> (r: NodeFeatures)
        ensures
            r.flags() == node_relevant_flags(init_ctx.flags()),
    {
        let mut flags: Vec<u8> = Vec::new();
        if init_ctx.flags.len() > 0 {
            flags.push(init_ctx.flags[0] & 0b0011_0011u8);
        }
        if init_ctx.flags.len() > 1 {
            flags.push(init_ctx.flags[1] & 0b0000_0011u8);
        }
        assert(flags@ =~= node_relevant_flags(init_ctx.flags()));
        Features { flags, mark: PhantomData }
    }
}

impl ChannelFeatures {
    /// The features this implementation supports in a `channel_announcement` message: none.
    pub fn supported() -> (r: ChannelFeatures)
        ensures
            r.flags() == Seq::<u8>::empty(),
    {
        Features { flags: Vec::new(), mark: PhantomData }
    }

    /// The init-context flags that mean the same in a channel announcement: none are defined.
    pub fn with_known_relevant_init_flags(init_ctx: &InitFeatures) -> (r: ChannelFeatures)
        ensures
            r.flags() == Seq::<u8>::empty(),
    {
        Features { flags: Vec::new(), mark: PhantomData }
    }
}

}
