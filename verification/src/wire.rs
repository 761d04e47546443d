use vstd::prelude::*;

use crate::errors::TranslationError;
use crate::hexcode::{
    bytes_to_hex, hex_le_to_u64, hex_of, hex_seq_le, hex_to_bytes, is_hex_digit, is_hex_seq,
    lemma_hex_of_is_hex, pow16, u64_to_hex_le,
};

verus! {

// Wire records: immutable, boundary-stable value shapes exposed to callers.
// They are created fresh on each translation call, carry no engine
// ownership, and may be freely copied or discarded. String-backed
// identifiers are round-tripped via their canonical text encoding;
// fixed-length byte identifiers are 32 bytes, carried as 64 lowercase hex
// digits.

/// The Bitcoin network a node runs on.
#[derive(Clone, Copy, PartialEq, Eq, Structural, Debug)]
pub enum Network {
    Bitcoin,
    Testnet,
    Signet,
    Regtest,
}

/// The status of a payment. `Pending` is the only non-terminal state.
#[derive(Clone, Copy, PartialEq, Eq, Structural, Debug)]
pub enum PaymentStatus {
    Pending,
    Succeeded,
    Failed,
}

/// The direction of a payment as seen from the node.
#[derive(Clone, Copy, PartialEq, Eq, Structural, Debug)]
pub enum PaymentDirection {
    Inbound,
    Outbound,
}

/// A bitcoin address in canonical text form.
#[derive(Clone, PartialEq, Eq, Debug)]
pub struct Address {
    pub internal: String,
}

/// A compressed public key as 66 lowercase hex digits.
#[derive(Clone, PartialEq, Eq, Debug)]
pub struct PublicKey {
    pub internal: String,
}

/// A transaction id as 64 lowercase hex digits.
#[derive(Clone, PartialEq, Eq, Debug)]
pub struct Txid {
    pub internal: String,
}

/// A channel id as 64 lowercase hex digits.
#[derive(Clone, PartialEq, Eq, Debug)]
pub struct ChannelId {
    pub internal: String,
}

/// A BOLT11-style invoice in its text form.
#[derive(Clone, PartialEq, Eq, Debug)]
pub struct Invoice {
    pub internal: String,
}

/// A BIP 39 mnemonic phrase.
#[derive(Clone, PartialEq, Eq, Debug)]
pub struct Mnemonic {
    pub internal: String,
}

/// A peer network address in `host:port` text form.
#[derive(Clone, PartialEq, Eq, Debug)]
pub struct NetAddress {
    pub internal: String,
}

/// A payment hash: 32 bytes, carried as 64 lowercase hex digits.
#[derive(Clone, PartialEq, Eq, Debug)]
pub struct PaymentHash {
    pub internal: String,
}

/// A payment preimage: 32 bytes, carried as 64 lowercase hex digits.
#[derive(Clone, PartialEq, Eq, Debug)]
pub struct PaymentPreimage {
    pub internal: String,
}

/// A payment secret: 32 bytes, carried as 64 lowercase hex digits.
#[derive(Clone, PartialEq, Eq, Debug)]
pub struct PaymentSecret {
    pub internal: String,
}

/// The facade-visible record of one payment.
#[derive(Clone, PartialEq, Eq, Debug)]
pub struct PaymentDetails {
    pub hash: PaymentHash,
    pub preimage: Option<PaymentPreimage>,
    pub secret: Option<PaymentSecret>,
    pub amount_msat: Option<u64>,
    pub direction: PaymentDirection,
    pub status: PaymentStatus,
}

/// The facade-visible record of one peer.
#[derive(Clone, PartialEq, Eq, Debug)]
pub struct PeerDetails {
    pub node_id: PublicKey,
    pub address: NetAddress,
    pub is_persisted: bool,
    pub is_connected: bool,
}

/// Per-channel configuration.
#[derive(Clone, Copy, PartialEq, Eq, Structural, Debug)]
pub struct ChannelConfig {
    pub forwarding_fee_proportional_millionths: u32,
    pub forwarding_fee_base_msat: u32,
    pub cltv_expiry_delta: u16,
}

/// The facade-visible record of one channel.
#[derive(Clone, PartialEq, Eq, Debug)]
pub struct ChannelDetails {
    pub channel_id: ChannelId,
    pub counterparty_node_id: PublicKey,
    pub funding_txid: Option<Txid>,
    pub channel_value_sats: u64,
    pub local_balance_msat: u64,
    pub outbound_capacity_msat: u64,
    pub inbound_capacity_msat: u64,
    pub config: ChannelConfig,
    pub is_channel_ready: bool,
    pub is_public: bool,
}

/// An engine-emitted notification. The engine holds at most one current
/// unacknowledged event at the head of its queue at a time.
#[derive(Clone, PartialEq, Eq, Debug)]
pub enum Event {
    PaymentSuccessful { payment_hash: PaymentHash },
    PaymentFailed { payment_hash: PaymentHash },
    PaymentReceived { payment_hash: PaymentHash, amount_msat: u64 },
    ChannelPending { channel_id: ChannelId, counterparty_node_id: PublicKey },
    ChannelReady { channel_id: ChannelId },
    ChannelClosed { channel_id: ChannelId },
}

/// Whether `s` is the text of a 32-byte identifier: 64 lowercase hex
/// digits.
pub open spec fn valid_hash_text(s: Seq<char>) -> bool {
    s.len() == 64 && is_hex_seq(s)
}

/// Whether `s` is the text of a compressed public key: 66 lowercase hex
/// digits beginning with `02` or `03`.
pub open spec fn valid_public_key_text(s: Seq<char>) -> bool {
    s.len() == 66 && is_hex_seq(s) && s[0] == '0' && (s[1] == '2' || s[1] == '3')
}

/// Whether `c` is a decimal digit.
pub open spec fn is_dec_digit(c: char) -> bool {
    c == '0' || c == '1' || c == '2' || c == '3' || c == '4' || c == '5' || c == '6' || c == '7'
        || c == '8' || c == '9'
}

/// Whether position `i` splits `s` into a nonempty host, a colon, and a
/// port of one to five decimal digits.
pub open spec fn net_address_split_at(s: Seq<char>, i: int) -> bool {
    0 < i < s.len() && s[i] == ':' && s.len() - i - 1 >= 1 && s.len() - i - 1 <= 5 && (forall|
        j: int,
    |
        i < j < s.len() ==> is_dec_digit(#[trigger] s[j]))
}

/// Whether `s` is a canonical `host:port` peer address.
pub open spec fn valid_net_address_text(s: Seq<char>) -> bool {
    exists|i: int| net_address_split_at(s, i)
}

/// Translate public-key text into a checked wire record. Accepts exactly
/// the canonical compressed-key form.
pub fn parse_public_key(s: &str) -> (r: Result<PublicKey, TranslationError>)
    ensures
        match r {
            Ok(k) => valid_public_key_text(s@) && k.internal@ == s@,
            Err(e) => !valid_public_key_text(s@) && e == TranslationError::ParseError,
        },
{
    let n = s.unicode_len();
    if n != 66 {
        return Err(TranslationError::ParseError);
    }
    if s.get_char(0) != '0' {
        return Err(TranslationError::ParseError);
    }
    let c1 = s.get_char(1);
    if !(c1 == '2' || c1 == '3') {
        return Err(TranslationError::ParseError);
    }
    let mut i: usize = 0;
    while i < n
        invariant
            i <= n,
            n == s@.len(),
            forall|j: int| 0 <= j < i ==> is_hex_digit(#[trigger] s@[j]),
        decreases n - i,
    {
        let c = s.get_char(i);
        if crate::hexcode::hex_val_of(c).is_none() {
            return Err(TranslationError::ParseError);
        }
        i += 1;
    }
    Ok(PublicKey { internal: s.to_owned() })
}

/// Translate `host:port` text into a checked wire record.
pub fn parse_net_address(s: &str) -> (r: Result<NetAddress, TranslationError>)
    ensures
        match r {
            Ok(a) => valid_net_address_text(s@) && a.internal@ == s@,
            Err(e) => !valid_net_address_text(s@) && e == TranslationError::ParseError,
        },
{
    let n = s.unicode_len();
    // Find the last colon; earlier colons may belong to the host.
    let mut colon: usize = n;
    let mut i: usize = 0;
    while i < n
        invariant
            i <= n,
            colon <= n,
            n == s@.len(),
            colon == n ==> forall|j: int| 0 <= j < i ==> s@[j] != ':',
            colon < n ==> colon < i && s@[colon as int] == ':',
            colon < n ==> forall|j: int| colon < j < i ==> s@[j] != ':',
        decreases n - i,
    {
        if s.get_char(i) == ':' {
            colon = i;
        }
        i += 1;
    }
    if colon == n {
        // No colon at all.
        proof {
            assert forall|k: int| !net_address_split_at(s@, k) by {
                if 0 < k < s@.len() {
                    assert(s@[k] != ':');
                }
            }
        }
        return Err(TranslationError::ParseError);
    }
    if colon == 0 {
        // Empty host: the only colon is the first character.
        proof {
            assert forall|k: int| !net_address_split_at(s@, k) by {
                if 0 < k < s@.len() {
                    assert(s@[k] != ':');
                }
            }
        }
        return Err(TranslationError::ParseError);
    }
    let port_len = n - colon - 1;
    if port_len < 1 || port_len > 5 {
        proof {
            assert forall|k: int| !net_address_split_at(s@, k) by {
                if 0 < k < s@.len() && s@[k] == ':' {
                    if k < colon as int {
                        assert(!is_dec_digit(s@[colon as int]));
                    } else {
                        assert(k == colon as int);
                    }
                }
            }
        }
        return Err(TranslationError::ParseError);
    }
    let mut j: usize = colon + 1;
    while j < n
        invariant
            colon < j <= n,
            n == s@.len(),
            s@[colon as int] == ':',
            n - colon - 1 >= 1,
            n - colon - 1 <= 5,
            forall|k: int| colon < k < n ==> s@[k] != ':',
            forall|k: int| colon < k < j ==> is_dec_digit(#[trigger] s@[k]),
        decreases n - j,
    {
        let c = s.get_char(j);
        let ok = c == '0' || c == '1' || c == '2' || c == '3' || c == '4' || c == '5' || c == '6'
            || c == '7' || c == '8' || c == '9';
        if !ok {
            proof {
                assert(!is_dec_digit(s@[j as int]));
                assert forall|k: int| !net_address_split_at(s@, k) by {
                    if 0 < k < s@.len() && s@[k] == ':' {
                        if k < colon as int {
                            assert(!is_dec_digit(s@[colon as int]));
                        } else if k > colon as int {
                            assert(s@[k] != ':');
                        } else {
                            assert(!is_dec_digit(s@[j as int]));
                        }
                    }
                }
            }
            return Err(TranslationError::ParseError);
        }
        j += 1;
    }
    proof {
        assert(net_address_split_at(s@, colon as int));
    }
    Ok(NetAddress { internal: s.to_owned() })
}

/// Translate a 32-byte identifier into its canonical 64-digit hex text.
/// Rejects any other length with `InvalidLength`; never truncates or pads.
pub fn id32_text_from_bytes(bytes: &Vec<u8>) -> (r: Result<String, TranslationError>)
    ensures
        match r {
            Ok(s) => bytes@.len() == 32 && s@ == hex_of(bytes@) && valid_hash_text(s@),
            Err(e) => bytes@.len() != 32 && e == TranslationError::InvalidLength,
        },
{
    if bytes.len() != 32 {
        return Err(TranslationError::InvalidLength);
    }
    let s = bytes_to_hex(bytes);
    proof {
        lemma_hex_of_is_hex(bytes@);
    }
    Ok(s)
}

/// Translate 64-digit hex text back into its 32 bytes. Rejects malformed
/// hex with `ParseError` and any other length with `InvalidLength`.
pub fn id32_bytes_from_text(s: &str) -> (r: Result<Vec<u8>, TranslationError>)
    ensures
        match r {
            Ok(v) => valid_hash_text(s@) && hex_of(v@) == s@ && v@.len() == 32,
            Err(_) => !valid_hash_text(s@),
        },
{
    if s.unicode_len() != 64 {
        return Err(TranslationError::InvalidLength);
    }
    let v = hex_to_bytes(s)?;
    proof {
        assert(v@.len() * 2 == 64);
    }
    Ok(v)
}

/// Build a payment hash from raw bytes; exactly 32 bytes are accepted.
pub fn payment_hash_from_bytes(bytes: &Vec<u8>) -> (r: Result<PaymentHash, TranslationError>)
    ensures
        match r {
            Ok(h) => bytes@.len() == 32 && h.internal@ == hex_of(bytes@),
            Err(e) => bytes@.len() != 32 && e == TranslationError::InvalidLength,
        },
{
    let s = id32_text_from_bytes(bytes)?;
    Ok(PaymentHash { internal: s })
}

/// Recover the raw bytes of a payment hash from its canonical text.
pub fn payment_hash_to_bytes(h: &PaymentHash) -> (r: Result<Vec<u8>, TranslationError>)
    ensures
        match r {
            Ok(v) => valid_hash_text(h.internal@) && hex_of(v@) == h.internal@,
            Err(_) => !valid_hash_text(h.internal@),
        },
{
    id32_bytes_from_text(h.internal.as_str())
}

/// The wire tag of a payment status: the position of the variant in the
/// order `Pending`, `Succeeded`, `Failed`.
pub open spec fn spec_status_tag(s: PaymentStatus) -> int {
    match s {
        PaymentStatus::Pending => 0,
        PaymentStatus::Succeeded => 1,
        PaymentStatus::Failed => 2,
    }
}

/// Translate a payment status to its wire tag.
pub fn payment_status_to_tag(s: PaymentStatus) -> (r: u8)
    ensures
        r as int == spec_status_tag(s),
{
    match s {
        PaymentStatus::Pending => 0,
        PaymentStatus::Succeeded => 1,
        PaymentStatus::Failed => 2,
    }
}

/// Translate a wire tag back to a payment status. An unmapped tag yields
/// `None`: an engine contract violation the caller must treat as fatal.
pub fn payment_status_from_tag(t: u8) -> (r: Option<PaymentStatus>)
    ensures
        match r {
            Some(s) => spec_status_tag(s) == t as int,
            None => t > 2,
        },
{
    if t == 0 {
        Some(PaymentStatus::Pending)
    } else if t == 1 {
        Some(PaymentStatus::Succeeded)
    } else if t == 2 {
        Some(PaymentStatus::Failed)
    } else {
        None
    }
}

/// The wire tag of a payment direction: `Inbound` before `Outbound`.
pub open spec fn spec_direction_tag(d: PaymentDirection) -> int {
    match d {
        PaymentDirection::Inbound => 0,
        PaymentDirection::Outbound => 1,
    }
}

/// Translate a payment direction to its wire tag.
pub fn payment_direction_to_tag(d: PaymentDirection) -> (r: u8)
    ensures
        r as int == spec_direction_tag(d),
{
    match d {
        PaymentDirection::Inbound => 0,
        PaymentDirection::Outbound => 1,
    }
}

/// Translate a wire tag back to a payment direction; `None` for an
/// unmapped tag.
pub fn payment_direction_from_tag(t: u8) -> (r: Option<PaymentDirection>)
    ensures
        match r {
            Some(d) => spec_direction_tag(d) == t as int,
            None => t > 1,
        },
{
    if t == 0 {
        Some(PaymentDirection::Inbound)
    } else if t == 1 {
        Some(PaymentDirection::Outbound)
    } else {
        None
    }
}

/// The tag correspondence for payment status is an order-preserving
/// bijection: translating out and back is the identity, and the tag order
/// follows the variant order.
pub proof fn lemma_status_tag_round_trip(s: PaymentStatus)
    ensures
        0 <= spec_status_tag(s) <= 2,
        forall|a: PaymentStatus, b: PaymentStatus|
            spec_status_tag(a) == spec_status_tag(b) ==> a == b,
{
}

/// The tag correspondence for payment direction is an order-preserving
/// bijection.
pub proof fn lemma_direction_tag_round_trip(d: PaymentDirection)
    ensures
        0 <= spec_direction_tag(d) <= 1,
        forall|a: PaymentDirection, b: PaymentDirection|
            spec_direction_tag(a) == spec_direction_tag(b) ==> a == b,
{
}

/// The invoice prefix of a network.
pub open spec fn invoice_prefix(net: Network) -> Seq<char> {
    match net {
        Network::Bitcoin => seq!['l', 'n', 'b', 'c'],
        Network::Testnet => seq!['l', 'n', 't', 'b'],
        Network::Signet => seq!['l', 'n', 't', 'b', 's'],
        Network::Regtest => seq!['l', 'n', 'b', 'c', 'r', 't'],
    }
}

/// The canonical text of an invoice: the network's invoice prefix, an
/// amount-present flag (`1` or `0`), the amount in millisatoshi as 16
/// hex digits least significant first, the expiry in seconds as 16 hex
/// digits, the description's length as 16 hex digits, the description
/// itself, then the 64-digit payment hash. The invoice thereby commits
/// to the amount, the expiry and the description it was issued for.
pub open spec fn invoice_text(
    net: Network,
    has_amount: bool,
    amount_msat: u64,
    expiry_secs: u32,
    description: Seq<char>,
    hash: Seq<char>,
) -> Seq<char> {
    invoice_prefix(net) + seq![if has_amount { '1' } else { '0' }] + hex_seq_le(
        amount_msat as nat,
        16,
    ) + hex_seq_le(expiry_secs as nat, 16) + hex_seq_le(description.len(), 16) + description
        + hash
}

/// Whether `s` is the canonical text of some invoice.
pub open spec fn valid_invoice_text(s: Seq<char>) -> bool {
    exists|
        net: Network,
        has_amount: bool,
        amount_msat: u64,
        expiry_secs: u32,
        description: Seq<char>,
        hash: Seq<char>,
    |
        valid_hash_text(hash) && s == invoice_text(
            net,
            has_amount,
            amount_msat,
            expiry_secs,
            description,
            hash,
        )
}

/// Whether `s` is invoice text committing to exactly this network,
/// amount-present flag, amount and hash (for some expiry and
/// description).
pub open spec fn invoice_commits(
    s: Seq<char>,
    net: Network,
    has_amount: bool,
    amount_msat: u64,
    hash: Seq<char>,
) -> bool {
    exists|expiry_secs: u32, description: Seq<char>|
        s == invoice_text(net, has_amount, amount_msat, expiry_secs, description, hash)
}

/// The fields recovered from an invoice's text.
#[derive(Clone, PartialEq, Eq, Debug)]
pub struct ParsedInvoice {
    pub network: Network,
    pub has_amount: bool,
    pub amount_msat: u64,
    pub expiry_secs: u32,
    pub description: String,
    pub hash: PaymentHash,
}

/// How the parts of an invoice's text lie in the whole.
pub proof fn lemma_invoice_text_parts(
    net: Network,
    has_amount: bool,
    amount_msat: u64,
    expiry_secs: u32,
    description: Seq<char>,
    hash: Seq<char>,
)
    requires
        hash.len() == 64,
    ensures
        ({
            let p = invoice_prefix(net).len() as int;
            let d = description.len() as int;
            let t = invoice_text(net, has_amount, amount_msat, expiry_secs, description, hash);
            &&& t.len() == p + 113 + d
            &&& t.subrange(0, p) == invoice_prefix(net)
            &&& t[p] == (if has_amount {
                '1'
            } else {
                '0'
            })
            &&& t.subrange(p + 1, p + 17) == hex_seq_le(amount_msat as nat, 16)
            &&& t.subrange(p + 17, p + 33) == hex_seq_le(expiry_secs as nat, 16)
            &&& t.subrange(p + 33, p + 49) == hex_seq_le(description.len(), 16)
            &&& t.subrange(p + 49, p + 49 + d) == description
            &&& t.subrange(p + 49 + d, p + 113 + d) == hash
        }),
{
    crate::hexcode::lemma_hex_seq_le_props(amount_msat as nat, 16);
    crate::hexcode::lemma_hex_seq_le_props(expiry_secs as nat, 16);
    crate::hexcode::lemma_hex_seq_le_props(description.len(), 16);
    let p = invoice_prefix(net).len() as int;
    let d = description.len() as int;
    let t = invoice_text(net, has_amount, amount_msat, expiry_secs, description, hash);
    assert(t.subrange(0, p) =~= invoice_prefix(net));
    assert(t.subrange(p + 1, p + 17) =~= hex_seq_le(amount_msat as nat, 16));
    assert(t.subrange(p + 17, p + 33) =~= hex_seq_le(expiry_secs as nat, 16));
    assert(t.subrange(p + 33, p + 49) =~= hex_seq_le(description.len(), 16));
    assert(t.subrange(p + 49, p + 49 + d) =~= description);
    assert(t.subrange(p + 49 + d, p + 113 + d) =~= hash);
}

/// The invoice prefix of a network, as text.
pub fn invoice_prefix_str(net: Network) -> (r: &'static str)
    ensures
        r@ == invoice_prefix(net),
{
    match net {
        Network::Bitcoin => {
            proof { reveal_strlit("lnbc"); }
            let r = "lnbc";
            proof { assert(r@ =~= invoice_prefix(Network::Bitcoin)); }
            r
        },
        Network::Testnet => {
            proof { reveal_strlit("lntb"); }
            let r = "lntb";
            proof { assert(r@ =~= invoice_prefix(Network::Testnet)); }
            r
        },
        Network::Signet => {
            proof { reveal_strlit("lntbs"); }
            let r = "lntbs";
            proof { assert(r@ =~= invoice_prefix(Network::Signet)); }
            r
        },
        Network::Regtest => {
            proof { reveal_strlit("lnbcrt"); }
            let r = "lnbcrt";
            proof { assert(r@ =~= invoice_prefix(Network::Regtest)); }
            r
        },
    }
}

/// Encode an invoice into its canonical text.
pub fn make_invoice_text(
    net: Network,
    has_amount: bool,
    amount_msat: u64,
    expiry_secs: u32,
    description: &String,
    hash: &PaymentHash,
) -> (r: String)
    requires
        valid_hash_text(hash.internal@),
    ensures
        r@ == invoice_text(net, has_amount, amount_msat, expiry_secs, description@,
        hash.internal@),
{
    let prefix = invoice_prefix_str(net);
    let mut out = prefix.to_owned();
    if has_amount {
        proof { reveal_strlit("1"); }
        out.append("1");
        proof { assert("1"@ =~= seq!['1']); }
    } else {
        proof { reveal_strlit("0"); }
        out.append("0");
        proof { assert("0"@ =~= seq!['0']); }
    }
    let amt = u64_to_hex_le(amount_msat);
    out.append(amt.as_str());
    let expiry = u64_to_hex_le(expiry_secs as u64);
    out.append(expiry.as_str());
    let dlen = u64_to_hex_le(description.as_str().unicode_len() as u64);
    out.append(dlen.as_str());
    out.append(description.as_str());
    out.append(hash.internal.as_str());
    proof {
        assert(out@ =~= invoice_text(net, has_amount, amount_msat, expiry_secs, description@,
        hash.internal@));
    }
    out
}

/// Whether every character of `s` at or after `from` is a lowercase hex
/// digit.
fn str_all_hex_from(s: &str, from: usize) -> (b: bool)
    requires
        from <= s@.len(),
    ensures
        b == (forall|j: int| from <= j < s@.len() ==> is_hex_digit(#[trigger] s@[j])),
{
    let n = s.unicode_len();
    let mut i: usize = from;
    while i < n
        invariant
            from <= i <= n,
            n == s@.len(),
            forall|j: int| from <= j < i ==> is_hex_digit(#[trigger] s@[j]),
        decreases n - i,
    {
        if crate::hexcode::hex_val_of(s.get_char(i)).is_none() {
            return false;
        }
        i += 1;
    }
    true
}

/// Try to read `s` as an invoice of network `net`.
#[verifier::spinoff_prover]
#[verifier::rlimit(80)]
fn try_parse_invoice(s: &str, net: Network) -> (r: Option<ParsedInvoice>)
    ensures
        match r {
            Some(p) => p.network == net && valid_hash_text(p.hash.internal@) && s@ == invoice_text(
                net,
                p.has_amount,
                p.amount_msat,
                p.expiry_secs,
                p.description@,
                p.hash.internal@,
            ),
            None => forall|ha: bool, am: u64, ex: u32, de: Seq<char>, hs: Seq<char>|
                valid_hash_text(hs) ==> s@ != invoice_text(net, ha, am, ex, de, hs),
        },
{
    let prefix = invoice_prefix_str(net);
    let plen = prefix.unicode_len();
    let n = s.unicode_len();
    if n < plen + 113 {
        proof {
            assert forall|ha: bool, am: u64, ex: u32, de: Seq<char>, hs: Seq<char>|
                valid_hash_text(hs) implies s@ != invoice_text(net, ha, am, ex, de, hs) by {
                lemma_invoice_text_parts(net, ha, am, ex, de, hs);
            }
        }
        return None;
    }
    let mut i: usize = 0;
    while i < plen
        invariant
            i <= plen,
            plen == invoice_prefix(net).len(),
            n == s@.len(),
            n >= plen + 113,
            prefix@ == invoice_prefix(net),
            forall|j: int| 0 <= j < i ==> s@[j] == invoice_prefix(net)[j],
        decreases plen - i,
    {
        if s.get_char(i) != prefix.get_char(i) {
            proof {
                assert forall|ha: bool, am: u64, ex: u32, de: Seq<char>, hs: Seq<char>|
                    valid_hash_text(hs) implies s@ != invoice_text(net, ha, am, ex, de, hs) by {
                    lemma_invoice_text_parts(net, ha, am, ex, de, hs);
                    let t = invoice_text(net, ha, am, ex, de, hs);
                    if s@ == t {
                        assert(t[i as int] == t.subrange(0, plen as int)[i as int]);
                    }
                }
            }
            return None;
        }
        i += 1;
    }
    let flag = s.get_char(plen);
    if !(flag == '1' || flag == '0') {
        proof {
            assert forall|ha: bool, am: u64, ex: u32, de: Seq<char>, hs: Seq<char>|
                valid_hash_text(hs) implies s@ != invoice_text(net, ha, am, ex, de, hs) by {
                lemma_invoice_text_parts(net, ha, am, ex, de, hs);
            }
        }
        return None;
    }
    let has_amount = flag == '1';
    let amt_str = s.substring_char(plen + 1, plen + 17);
    let amount_msat = match hex_le_to_u64(amt_str) {
        Some(v) => v,
        None => {
            proof {
                assert forall|ha: bool, am: u64, ex: u32, de: Seq<char>, hs: Seq<char>|
                    valid_hash_text(hs) implies s@ != invoice_text(net, ha, am, ex, de, hs) by {
                    lemma_invoice_text_parts(net, ha, am, ex, de, hs);
                    crate::hexcode::lemma_hex_seq_le_props(am as nat, 16);
                    if s@ == invoice_text(net, ha, am, ex, de, hs) {
                        assert(amt_str@ == hex_seq_le(am as nat, 16));
                    }
                }
            }
            return None;
        },
    };
    let exp_str = s.substring_char(plen + 17, plen + 33);
    let expiry_wide = match hex_le_to_u64(exp_str) {
        Some(v) => v,
        None => {
            proof {
                assert forall|ha: bool, am: u64, ex: u32, de: Seq<char>, hs: Seq<char>|
                    valid_hash_text(hs) implies s@ != invoice_text(net, ha, am, ex, de, hs) by {
                    lemma_invoice_text_parts(net, ha, am, ex, de, hs);
                    crate::hexcode::lemma_hex_seq_le_props(ex as nat, 16);
                    if s@ == invoice_text(net, ha, am, ex, de, hs) {
                        assert(exp_str@ == hex_seq_le(ex as nat, 16));
                    }
                }
            }
            return None;
        },
    };
    if expiry_wide > (u32::MAX as u64) {
        proof {
            assert forall|ha: bool, am: u64, ex: u32, de: Seq<char>, hs: Seq<char>|
                valid_hash_text(hs) implies s@ != invoice_text(net, ha, am, ex, de, hs) by {
                lemma_invoice_text_parts(net, ha, am, ex, de, hs);
                if s@ == invoice_text(net, ha, am, ex, de, hs) {
                    assert(exp_str@ == hex_seq_le(ex as nat, 16));
                    crate::hexcode::lemma_hex_le_val_of_seq(ex as nat, 16);
                    crate::hexcode::lemma_pow16_values();
                    assert((ex as nat) % pow16(16) == ex as nat) by {
                        assert((ex as nat) < pow16(16));
                    }
                    assert(expiry_wide as int == ex as int);
                }
            }
        }
        return None;
    }
    let expiry_secs: u32 = expiry_wide as u32;
    let dlen_str = s.substring_char(plen + 33, plen + 49);
    let dlen_wide = match hex_le_to_u64(dlen_str) {
        Some(v) => v,
        None => {
            proof {
                assert forall|ha: bool, am: u64, ex: u32, de: Seq<char>, hs: Seq<char>|
                    valid_hash_text(hs) implies s@ != invoice_text(net, ha, am, ex, de, hs) by {
                    lemma_invoice_text_parts(net, ha, am, ex, de, hs);
                    crate::hexcode::lemma_hex_seq_le_props(de.len(), 16);
                    if s@ == invoice_text(net, ha, am, ex, de, hs) {
                        assert(dlen_str@ == hex_seq_le(de.len(), 16));
                    }
                }
            }
            return None;
        },
    };
    let expected_dlen = n - plen - 113;
    if dlen_wide != (expected_dlen as u64) {
        proof {
            assert forall|ha: bool, am: u64, ex: u32, de: Seq<char>, hs: Seq<char>|
                valid_hash_text(hs) implies s@ != invoice_text(net, ha, am, ex, de, hs) by {
                lemma_invoice_text_parts(net, ha, am, ex, de, hs);
                if s@ == invoice_text(net, ha, am, ex, de, hs) {
                    assert(de.len() == n - plen - 113);
                    assert(dlen_str@ == hex_seq_le(de.len(), 16));
                    crate::hexcode::lemma_hex_le_val_of_seq(de.len(), 16);
                    crate::hexcode::lemma_pow16_values();
                    assert(de.len() % pow16(16) == de.len()) by {
                        assert(de.len() < pow16(16));
                    }
                    assert(dlen_wide as int == de.len() as int);
                }
            }
        }
        return None;
    }
    let desc_str = s.substring_char(plen + 49, plen + 49 + expected_dlen);
    let hash_str = s.substring_char(plen + 49 + expected_dlen, n);
    if !str_all_hex_from(hash_str, 0) {
        proof {
            assert forall|ha: bool, am: u64, ex: u32, de: Seq<char>, hs: Seq<char>|
                valid_hash_text(hs) implies s@ != invoice_text(net, ha, am, ex, de, hs) by {
                lemma_invoice_text_parts(net, ha, am, ex, de, hs);
                if s@ == invoice_text(net, ha, am, ex, de, hs) {
                    assert(de.len() == n - plen - 113);
                    assert(hash_str@ == hs);
                }
            }
        }
        return None;
    }
    proof {
        assert(s@ =~= invoice_text(net, has_amount, amount_msat, expiry_secs, desc_str@,
        hash_str@));
    }
    Some(
        ParsedInvoice {
            network: net,
            has_amount,
            amount_msat,
            expiry_secs,
            description: desc_str.to_owned(),
            hash: PaymentHash { internal: hash_str.to_owned() },
        },
    )
}

/// Translate invoice text back into its fields. Accepts exactly the
/// canonical encodings; rejects everything else with `ParseError` rather
/// than producing a partially-populated value.
pub fn parse_invoice(s: &str) -> (r: Result<ParsedInvoice, TranslationError>)
    ensures
        match r {
            Ok(p) => valid_hash_text(p.hash.internal@) && s@ == invoice_text(
                p.network,
                p.has_amount,
                p.amount_msat,
                p.expiry_secs,
                p.description@,
                p.hash.internal@,
            ),
            Err(e) => !valid_invoice_text(s@) && e == TranslationError::ParseError,
        },
{
    if let Some(p) = try_parse_invoice(s, Network::Bitcoin) {
        return Ok(p);
    }
    if let Some(p) = try_parse_invoice(s, Network::Testnet) {
        return Ok(p);
    }
    if let Some(p) = try_parse_invoice(s, Network::Signet) {
        return Ok(p);
    }
    if let Some(p) = try_parse_invoice(s, Network::Regtest) {
        return Ok(p);
    }
    proof {
        assert forall|
            net: Network,
            ha: bool,
            am: u64,
            ex: u32,
            de: Seq<char>,
            hs: Seq<char>,
        | !(valid_hash_text(hs) && s@ == invoice_text(net, ha, am, ex, de, hs)) by {
            match net {
                Network::Bitcoin => {},
                Network::Testnet => {},
                Network::Signet => {},
                Network::Regtest => {},
            }
        }
    }
    Err(TranslationError::ParseError)
}

/// The human-readable part that begins an address of a network.
pub open spec fn address_hrp(net: Network) -> Seq<char> {
    match net {
        Network::Bitcoin => seq!['b', 'c'],
        Network::Testnet => seq!['t', 'b'],
        Network::Signet => seq!['t', 'b'],
        Network::Regtest => seq!['b', 'c', 'r', 't'],
    }
}

/// Whether `s` is an address in the model's own canonical form for
/// network `net`: the network's human-readable part, a `1` separator,
/// and at least six hex payload characters. This is a shape check of the
/// model encoding, not the checksummed on-chain address format, which
/// only the engine can validate.
pub open spec fn valid_address_text(s: Seq<char>, net: Network) -> bool {
    s.len() >= address_hrp(net).len() + 7 && s.subrange(0, address_hrp(net).len() as int)
        == address_hrp(net) && s[address_hrp(net).len() as int] == '1' && (forall|j: int|
        address_hrp(net).len() + 1 <= j < s.len() ==> is_hex_digit(#[trigger] s[j]))
}

/// The human-readable part of an address, as text.
fn address_hrp_str(net: Network) -> (r: &'static str)
    ensures
        r@ == address_hrp(net),
{
    match net {
        Network::Bitcoin => {
            proof { reveal_strlit("bc"); }
            let r = "bc";
            proof { assert(r@ =~= address_hrp(Network::Bitcoin)); }
            r
        },
        Network::Testnet => {
            proof { reveal_strlit("tb"); }
            let r = "tb";
            proof { assert(r@ =~= address_hrp(Network::Testnet)); }
            r
        },
        Network::Signet => {
            proof { reveal_strlit("tb"); }
            let r = "tb";
            proof { assert(r@ =~= address_hrp(Network::Signet)); }
            r
        },
        Network::Regtest => {
            proof { reveal_strlit("bcrt"); }
            let r = "bcrt";
            proof { assert(r@ =~= address_hrp(Network::Regtest)); }
            r
        },
    }
}

/// Check address text against the model's canonical form for network
/// `net`.
pub fn check_address_text(s: &str, net: Network) -> (b: bool)
    ensures
        b == valid_address_text(s@, net),
{
    let hrp = address_hrp_str(net);
    let hlen = hrp.unicode_len();
    let n = s.unicode_len();
    if n < hlen + 7 {
        return false;
    }
    let mut i: usize = 0;
    while i < hlen
        invariant
            i <= hlen,
            hlen == address_hrp(net).len(),
            n == s@.len(),
            n >= hlen + 7,
            hrp@ == address_hrp(net),
            forall|j: int| 0 <= j < i ==> s@[j] == address_hrp(net)[j],
        decreases hlen - i,
    {
        if s.get_char(i) != hrp.get_char(i) {
            proof {
                assert(s@.subrange(0, hlen as int)[i as int] != address_hrp(net)[i as int]);
            }
            return false;
        }
        i += 1;
    }
    if s.get_char(hlen) != '1' {
        return false;
    }
    let r = str_all_hex_from(s, hlen + 1);
    proof {
        if r {
            assert(s@.subrange(0, hlen as int) =~= address_hrp(net));
        }
    }
    r
}

/// The canonical 64-digit text of the `k`-th locally generated 32-byte
/// identifier: the counter as 16 hex digits, then 48 zero digits.
pub open spec fn spec_id64_text(k: u64) -> Seq<char> {
    hex_seq_le(k as nat, 16) + hex_seq_le(0, 16) + hex_seq_le(0, 16) + hex_seq_le(0, 16)
}

/// Build the canonical text of the `k`-th locally generated identifier.
pub fn make_id64_text(k: u64) -> (r: String)
    ensures
        r@ == spec_id64_text(k),
        valid_hash_text(r@),
{
    let mut out = u64_to_hex_le(k);
    let zeros = u64_to_hex_le(0);
    out.append(zeros.as_str());
    out.append(zeros.as_str());
    out.append(zeros.as_str());
    proof {
        assert(out@ =~= spec_id64_text(k));
        crate::hexcode::lemma_hex_seq_le_props(k as nat, 16);
        crate::hexcode::lemma_hex_seq_le_props(0, 16);
        assert(is_hex_seq(out@)) by {
            assert forall|j: int| 0 <= j < out@.len() implies is_hex_digit(#[trigger] out@[j]) by {
                if j < 16 {
                    assert(out@[j] == hex_seq_le(k as nat, 16)[j]);
                } else if j < 32 {
                    assert(out@[j] == hex_seq_le(0, 16)[j - 16]);
                } else if j < 48 {
                    assert(out@[j] == hex_seq_le(0, 16)[j - 32]);
                } else {
                    assert(out@[j] == hex_seq_le(0, 16)[j - 48]);
                }
            }
        }
    }
    out
}

/// Distinct counters give distinct locally generated identifiers.
pub proof fn lemma_id64_text_injective(a: u64, b: u64)
    requires
        spec_id64_text(a) == spec_id64_text(b),
    ensures
        a == b,
{
    crate::hexcode::lemma_hex_seq_le_props(a as nat, 16);
    crate::hexcode::lemma_hex_seq_le_props(b as nat, 16);
    assert(hex_seq_le(a as nat, 16) =~= spec_id64_text(a).subrange(0, 16));
    assert(hex_seq_le(b as nat, 16) =~= spec_id64_text(b).subrange(0, 16));
    crate::hexcode::lemma_hex_le_val_of_seq(a as nat, 16);
    crate::hexcode::lemma_hex_le_val_of_seq(b as nat, 16);
    crate::hexcode::lemma_pow16_values();
    assert((a as nat) % pow16(16) == a as nat) by {
        assert((a as nat) < pow16(16));
    }
    assert((b as nat) % pow16(16) == b as nat) by {
        assert((b as nat) < pow16(16));
    }
}

/// The canonical text of the `k`-th locally generated address for a
/// network: the human-readable part, the `1` separator, and the counter
/// as 16 hex digits.
pub open spec fn spec_address_text(net: Network, k: u64) -> Seq<char> {
    address_hrp(net) + seq!['1'] + hex_seq_le(k as nat, 16)
}

/// Build the canonical text of the `k`-th locally generated address.
pub fn make_address_text(net: Network, k: u64) -> (r: String)
    ensures
        r@ == spec_address_text(net, k),
        valid_address_text(r@, net),
{
    let hrp = address_hrp_str(net);
    let mut out = hrp.to_owned();
    proof { reveal_strlit("1"); }
    out.append("1");
    proof { assert("1"@ =~= seq!['1']); }
    let digits = u64_to_hex_le(k);
    out.append(digits.as_str());
    proof {
        assert(out@ =~= spec_address_text(net, k));
        crate::hexcode::lemma_hex_seq_le_props(k as nat, 16);
        let h = address_hrp(net).len() as int;
        assert(out@.subrange(0, h) =~= address_hrp(net));
        assert forall|j: int| h + 1 <= j < out@.len() implies is_hex_digit(#[trigger] out@[j]) by {
            assert(out@[j] == hex_seq_le(k as nat, 16)[j - h - 1]);
        }
    }
    out
}

/// Check that `s` is 64-digit hex identifier text.
pub fn check_id64_text(s: &str) -> (b: bool)
    ensures
        b == valid_hash_text(s@),
{
    if s.unicode_len() != 64 {
        return false;
    }
    str_all_hex_from(s, 0)
}

/// The signature text the model engine produces for a message under a
/// key: an `sg` marker, the signer's key text, then the message bytes in
/// hex.
pub open spec fn spec_sig_text(key: Seq<char>, msg: Seq<u8>) -> Seq<char> {
    seq!['s', 'g'] + key + hex_of(msg)
}

/// Build the model signature text for `msg` under `key`.
pub fn make_sig_text(key: &String, msg: &Vec<u8>) -> (r: String)
    ensures
        r@ == spec_sig_text(key@, msg@),
{
    proof { reveal_strlit("sg"); }
    let mut out = ("sg").to_owned();
    proof { assert(out@ =~= seq!['s', 'g']); }
    out.append(key.as_str());
    let digits = bytes_to_hex(msg);
    out.append(digits.as_str());
    proof {
        assert(out@ =~= spec_sig_text(key@, msg@));
    }
    out
}

/// An exact copy of a payment record.
pub fn copy_payment_details(p: &PaymentDetails) -> (r: PaymentDetails)
    ensures
        r == *p,
{
    PaymentDetails {
        hash: PaymentHash { internal: p.hash.internal.clone() },
        preimage: match &p.preimage {
            Some(x) => Some(PaymentPreimage { internal: x.internal.clone() }),
            None => None,
        },
        secret: match &p.secret {
            Some(x) => Some(PaymentSecret { internal: x.internal.clone() }),
            None => None,
        },
        amount_msat: p.amount_msat,
        direction: p.direction,
        status: p.status,
    }
}

/// An exact copy of a peer network address.
pub fn copy_net_address(a: &NetAddress) -> (r: NetAddress)
    ensures
        r == *a,
{
    NetAddress { internal: a.internal.clone() }
}

/// An exact copy of a peer record.
pub fn copy_peer_details(p: &PeerDetails) -> (r: PeerDetails)
    ensures
        r == *p,
{
    PeerDetails {
        node_id: PublicKey { internal: p.node_id.internal.clone() },
        address: NetAddress { internal: p.address.internal.clone() },
        is_persisted: p.is_persisted,
        is_connected: p.is_connected,
    }
}

/// An exact copy of a channel record.
pub fn copy_channel_details(c: &ChannelDetails) -> (r: ChannelDetails)
    ensures
        r == *c,
{
    ChannelDetails {
        channel_id: ChannelId { internal: c.channel_id.internal.clone() },
        counterparty_node_id: PublicKey { internal: c.counterparty_node_id.internal.clone() },
        funding_txid: match &c.funding_txid {
            Some(x) => Some(Txid { internal: x.internal.clone() }),
            None => None,
        },
        channel_value_sats: c.channel_value_sats,
        local_balance_msat: c.local_balance_msat,
        outbound_capacity_msat: c.outbound_capacity_msat,
        inbound_capacity_msat: c.inbound_capacity_msat,
        config: c.config,
        is_channel_ready: c.is_channel_ready,
        is_public: c.is_public,
    }
}

/// An exact copy of an event.
pub fn copy_event(e: &Event) -> (r: Event)
    ensures
        r == *e,
{
    match e {
        Event::PaymentSuccessful { payment_hash } => Event::PaymentSuccessful {
            payment_hash: PaymentHash { internal: payment_hash.internal.clone() },
        },
        Event::PaymentFailed { payment_hash } => Event::PaymentFailed {
            payment_hash: PaymentHash { internal: payment_hash.internal.clone() },
        },
        Event::PaymentReceived { payment_hash, amount_msat } => Event::PaymentReceived {
            payment_hash: PaymentHash { internal: payment_hash.internal.clone() },
            amount_msat: *amount_msat,
        },
        Event::ChannelPending { channel_id, counterparty_node_id } => Event::ChannelPending {
            channel_id: ChannelId { internal: channel_id.internal.clone() },
            counterparty_node_id: PublicKey { internal: counterparty_node_id.internal.clone() },
        },
        Event::ChannelReady { channel_id } => Event::ChannelReady {
            channel_id: ChannelId { internal: channel_id.internal.clone() },
        },
        Event::ChannelClosed { channel_id } => Event::ChannelClosed {
            channel_id: ChannelId { internal: channel_id.internal.clone() },
        },
    }
}

} // verus!
