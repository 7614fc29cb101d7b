use vstd::prelude::*;

verus! {

/// The SRTP cipher suite this call engine negotiates.
#[derive(Clone, Copy, Debug, PartialEq, Eq, Structural)]
pub enum SrtpCryptoSuite {
    AeadAes128Gcm,
}

/// Key length in bytes of `AeadAes128Gcm`.
pub const SRTP_KEY_LEN: usize = 16;

/// Salt length in bytes of `AeadAes128Gcm`.
pub const SRTP_SALT_LEN: usize = 12;

/// Two keys and two salts: one pair for each direction.
pub const MASTER_KEY_MATERIAL_LEN: usize = 56;

/// One direction's SRTP key material.
#[derive(Clone, Debug, PartialEq, Eq)]
pub struct SrtpKey {
    pub suite: SrtpCryptoSuite,
    pub key: Vec<u8>,
    pub salt: Vec<u8>,
}

/// The SRTP keys for both directions, derived from the one-shot DHE.
#[derive(Clone, Debug, PartialEq, Eq)]
pub struct SrtpKeys {
    pub client: SrtpKey,
    pub server: SrtpKey,
}

impl SrtpKeys {
    /// How the four pieces of `from_master_key_material`'s result relate to
    /// the 56 bytes of master key material:
    /// client key | client salt | server key | server salt.
    pub open spec fn matches_master(self, m: Seq<u8>) -> bool {
        &&& self.client.suite == SrtpCryptoSuite::AeadAes128Gcm
        &&& self.server.suite == SrtpCryptoSuite::AeadAes128Gcm
        &&& self.client.key@ == m.subrange(0, 16)
        &&& self.client.salt@ == m.subrange(16, 28)
        &&& self.server.key@ == m.subrange(28, 44)
        &&& self.server.salt@ == m.subrange(44, 56)
    }

    pub fn from_master_key_material(master_key_material: &[u8; 56]) -> (r: Self)
        ensures
            r.matches_master(master_key_material@),
    {
        let client_key = copy_range(master_key_material, 0, 16);
        let client_salt = copy_range(master_key_material, 16, 28);
        let server_key = copy_range(master_key_material, 28, 44);
        let server_salt = copy_range(master_key_material, 44, 56);
        SrtpKeys {
            client: SrtpKey {
                suite: SrtpCryptoSuite::AeadAes128Gcm,
                key: client_key,
                salt: client_salt,
            },
            server: SrtpKey {
                suite: SrtpCryptoSuite::AeadAes128Gcm,
                key: server_key,
                salt: server_salt,
            },
        }
    }
}

/// Copy `m[start..end]` into a fresh vector.
fn copy_range(m: &[u8; 56], start: usize, end: usize) -> (r: Vec<u8>)
    requires
        start <= end <= 56,
    ensures
        r@ == m@.subrange(start as int, end as int),
{
    let mut r: Vec<u8> = Vec::new();
    let mut i: usize = start;
    while i < end
        invariant
            start <= i <= end <= 56,
            r@ == m@.subrange(start as int, i as int),
        decreases end - i,
    {
        r.push(m[i]);
        proof {
            assert(m@.subrange(start as int, i + 1int) =~= m@.subrange(start as int, i as int).push(
                m@[i as int],
            ));
        }
        i = i + 1;
    }
    r
}

/// The ASCII bytes of the label
/// `Signal_Group_Call_20211105_SignallingDH_SRTPKey_KDF`, the fixed prefix
/// of the HKDF info used to derive SRTP master key material.
pub open spec fn spec_srtp_kdf_label() -> Seq<u8> {
    seq![
        83u8, 105u8, 103u8, 110u8, 97u8, 108u8, 95u8, 71u8, 114u8, 111u8, 117u8, 112u8, 95u8,
        67u8, 97u8, 108u8, 108u8, 95u8, 50u8, 48u8, 50u8, 49u8, 49u8, 49u8, 48u8, 53u8, 95u8,
        83u8, 105u8, 103u8, 110u8, 97u8, 108u8, 108u8, 105u8, 110u8, 103u8, 68u8, 72u8, 95u8,
        83u8, 82u8, 84u8, 80u8, 75u8, 101u8, 121u8, 95u8, 75u8, 68u8, 70u8,
    ]
}

/// The label as a vector, for handing to the key derivation.
pub fn srtp_kdf_label() -> (r: Vec<u8>)
    ensures
        r@ == spec_srtp_kdf_label(),
{
    let r: Vec<u8> = vec![
        83u8, 105u8, 103u8, 110u8, 97u8, 108u8, 95u8, 71u8, 114u8, 111u8, 117u8, 112u8, 95u8,
        67u8, 97u8, 108u8, 108u8, 95u8, 50u8, 48u8, 50u8, 49u8, 49u8, 49u8, 48u8, 53u8, 95u8,
        83u8, 105u8, 103u8, 110u8, 97u8, 108u8, 108u8, 105u8, 110u8, 103u8, 68u8, 72u8, 95u8,
        83u8, 82u8, 84u8, 80u8, 75u8, 101u8, 121u8, 95u8, 75u8, 68u8, 70u8,
    ];
    proof {
        assert(r@ =~= spec_srtp_kdf_label());
    }
    r
}

/// A sequence of `n` zero bytes, the HKDF salt used for the DHE.
pub open spec fn spec_zero_bytes(n: nat) -> Seq<u8> {
    Seq::new(n, |i: int| 0u8)
}

pub fn zero_bytes(n: usize) -> (r: Vec<u8>)
    ensures
        r@ == spec_zero_bytes(n as nat),
{
    let mut r: Vec<u8> = Vec::new();
    let mut i: usize = 0;
    while i < n
        invariant
            i <= n,
            r@ == spec_zero_bytes(i as nat),
        decreases n - i,
    {
        r.push(0u8);
        proof {
            assert(r@ =~= spec_zero_bytes((i + 1) as nat));
        }
        i = i + 1;
    }
    r
}

/// The ephemeral X25519 secret of the outside crate. It is opaque: fresh
/// randomness, consumed by a single Diffie-Hellman.
#[verifier::external_type_specification]
#[verifier::external_body]
pub struct ExEphemeralSecret(x25519_dalek::EphemeralSecret);

/// The X25519 public key of the outside crate.
#[verifier::external_type_specification]
#[verifier::external_body]
pub struct ExPublicKey(x25519_dalek::PublicKey);

/// Relies on x25519_dalek::EphemeralSecret::random_from_rng with the
/// operating-system RNG: a fresh random secret, of which nothing can be said.
#[verifier::external_body]
pub fn generate_client_secret() -> x25519_dalek::EphemeralSecret {
    x25519_dalek::EphemeralSecret::random_from_rng(rand::rngs::OsRng)
}

/// Relies on x25519_dalek::PublicKey::from(&EphemeralSecret): the public key
/// of the secret, here converted to its 32 bytes. The secret is opaque, so
/// nothing more is stated.
#[verifier::external_body]
pub fn public_key_bytes(secret: &x25519_dalek::EphemeralSecret) -> [u8; 32] {
    x25519_dalek::PublicKey::from(secret).to_bytes()
}

/// Relies on x25519_dalek::PublicKey::from([u8; 32]): a key parsed from its
/// 32-byte wire form.
#[verifier::external_body]
pub fn public_key_from_bytes(bytes: [u8; 32]) -> x25519_dalek::PublicKey {
    x25519_dalek::PublicKey::from(bytes)
}

/// Relies on x25519_dalek::EphemeralSecret::diffie_hellman: the shared
/// secret of the two keys, converted to its 32 bytes. It depends on the
/// opaque secret, so nothing more is stated.
#[verifier::external_body]
pub fn diffie_hellman_shared(
    secret: x25519_dalek::EphemeralSecret,
    server_pub_key: &x25519_dalek::PublicKey,
) -> [u8; 32] {
    secret.diffie_hellman(server_pub_key).to_bytes()
}

/// What HKDF-SHA256 expands `ikm` to under `salt` and `info`, taking
/// `out_len` output bytes.
pub uninterp spec fn hkdf_sha256_of(salt: Seq<u8>, ikm: Seq<u8>, info: Seq<u8>, out_len: nat) -> Seq<u8>;

/// Relies on hkdf::Hkdf::<Sha256>::new and expand_multi_info: fills
/// `out_len` bytes from the key material, where expanding over two info
/// components equals expanding over their concatenation. Fails only when
/// more than 255 hash blocks are asked for, which the bound below excludes.
#[verifier::external_body]
fn hkdf_sha256_expand(
    salt: &[u8],
    ikm: &[u8],
    info1: &[u8],
    info2: &[u8],
    out_len: usize,
) -> (r: Vec<u8>)
    requires
        out_len <= 8160,
    ensures
        r@ == hkdf_sha256_of(salt@, ikm@, info1@ + info2@, out_len as nat),
        r@.len() == out_len,
{
    let mut okm = vec![0u8; out_len];
    hkdf::Hkdf::<sha2::Sha256>::new(Some(salt), ikm)
        .expand_multi_info(&[info1, info2], &mut okm)
        .expect("HKDF output length is in range");
    okm
}

/// The one-way Diffie-Hellman negotiation: not started, waiting with the
/// single-use client secret, or finished with the derived SRTP keys.
pub enum DheState {
    NotYetStarted,
    WaitingForServerPublicKey { client_secret: x25519_dalek::EphemeralSecret },
    Negotiated { srtp_keys: SrtpKeys },
}

impl Default for DheState {
    fn default() -> (r: Self)
        ensures
            r is NotYetStarted,
    {
        DheState::NotYetStarted
    }
}

impl DheState {
    pub fn start(client_secret: x25519_dalek::EphemeralSecret) -> (r: Self)
        ensures
            r is WaitingForServerPublicKey,
    {
        DheState::WaitingForServerPublicKey { client_secret }
    }

    /// The keys in a negotiated state come from splitting 56 bytes of
    /// HKDF-SHA256 output under a 32-byte zero salt and the fixed label
    /// followed by the server-provided extra info, with some 32-byte shared
    /// secret as the key material.
    pub open spec fn negotiated_keys_ok(self, hkdf_extra_info: Seq<u8>) -> bool {
        self matches DheState::Negotiated { srtp_keys } ==> exists|ikm: Seq<u8>|
            ikm.len() == 32 && srtp_keys.matches_master(
                hkdf_sha256_of(
                    spec_zero_bytes(32),
                    ikm,
                    spec_srtp_kdf_label() + hkdf_extra_info,
                    56,
                ),
            )
    }

    /// Negotiating is a one-way step: it completes once, from the waiting
    /// state, and is a no-op from the others.
    pub fn negotiate(self, server_pub_key: &x25519_dalek::PublicKey, hkdf_extra_info: &[u8]) -> (r:
        Self)
        ensures
            self is NotYetStarted ==> r is NotYetStarted,
            self is Negotiated ==> r == self,
            self is WaitingForServerPublicKey ==> r is Negotiated && r.negotiated_keys_ok(
                hkdf_extra_info@,
            ),
    {
        match self {
            DheState::NotYetStarted => self,
            DheState::WaitingForServerPublicKey { client_secret } => {
                let shared_secret = diffie_hellman_shared(client_secret, server_pub_key);
                let salt = zero_bytes(32);
                let label = srtp_kdf_label();
                let master = hkdf_sha256_expand(
                    salt.as_slice(),
                    shared_secret.as_slice(),
                    label.as_slice(),
                    hkdf_extra_info,
                    56,
                );
                let mut master_bytes = [0u8; 56];
                let mut i: usize = 0;
                while i < 56
                    invariant
                        i <= 56,
                        master@.len() == 56,
                        master_bytes@.len() == 56,
                        forall|j: int| 0 <= j < i ==> master_bytes@[j] == master@[j],
                    decreases 56 - i,
                {
                    master_bytes[i] = master[i];
                    i = i + 1;
                }
                proof {
                    assert(master_bytes@ =~= master@);
                }
                let keys = SrtpKeys::from_master_key_material(&master_bytes);
                proof {
                    let ikm = shared_secret@;
                    assert(ikm.len() == 32 && keys.matches_master(
                        hkdf_sha256_of(
                            spec_zero_bytes(32),
                            ikm,
                            spec_srtp_kdf_label() + hkdf_extra_info@,
                            56,
                        ),
                    ));
                }
                DheState::Negotiated { srtp_keys: keys }
            },
            DheState::Negotiated { .. } => self,
        }
    }

    pub fn negotiate_in_place(
        &mut self,
        server_pub_key: &x25519_dalek::PublicKey,
        hkdf_extra_info: &[u8],
    )
        ensures
            *old(self) is NotYetStarted ==> *final(self) is NotYetStarted,
            *old(self) is Negotiated ==> *final(self) == *old(self),
            *old(self) is WaitingForServerPublicKey ==> *final(self) is Negotiated
                && final(self).negotiated_keys_ok(hkdf_extra_info@),
    {
        let mut taken = DheState::NotYetStarted;
        core::mem::swap(self, &mut taken);
        *self = taken.negotiate(server_pub_key, hkdf_extra_info);
    }
}

} // verus!
