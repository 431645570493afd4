use vstd::prelude::*;
use vstd::slice::slice_to_vec;
use crate::error::SessionError;

verus! {

/// Length in bytes of a secret key, a public key and a shared secret.
pub const KEY_LEN: usize = 32;

/// Offset in the shared secret of the byte that selects the session's
/// parameters. One byte leaves 256 possible parameter sets: a narrow keyspace.
pub const SCALAR_INDEX: usize = 10;

/// The X25519 function: the u-coordinate that the clamped `scalar` takes
/// `point` to.
pub uninterp spec fn x25519_product(scalar: Seq<u8>, point: Seq<u8>) -> Seq<u8>;

/// The u-coordinate of the base point: 9, least significant byte first.
pub open spec fn base_point() -> Seq<u8> {
    Seq::new(KEY_LEN as nat, |i: int| if i == 0 { 9u8 } else { 0u8 })
}

/// The public key that belongs to `secret`.
pub open spec fn public_key_of(secret: Seq<u8>) -> Seq<u8> {
    x25519_product(secret, base_point())
}

/// The secret that the holder of `secret` shares with the holder of the
/// secret behind `peer_public`.
pub open spec fn shared_secret_of(secret: Seq<u8>, peer_public: Seq<u8>) -> Seq<u8> {
    x25519_product(secret, peer_public)
}

/// The byte of a shared secret that selects the session's parameters.
pub open spec fn negotiated_scalar(shared: Seq<u8>) -> u8 {
    shared[SCALAR_INDEX as int]
}

/// `x25519_dalek::x25519`: believed to return the X25519 product of its
/// arguments, `KEY_LEN` bytes long, and to be a Diffie-Hellman function: where
/// `point` is the public key of some secret, the product is what that secret's
/// holder obtains from the public key of `scalar`.
#[verifier::external_body]
fn x25519(scalar: &[u8], point: &[u8]) -> (product: Vec<u8>)
    requires
        scalar@.len() == KEY_LEN,
        point@.len() == KEY_LEN,
    ensures
        product@ == x25519_product(scalar@, point@),
        product@.len() == KEY_LEN,
        forall|other: Seq<u8>|
            other.len() == KEY_LEN && point@ == #[trigger] public_key_of(other) ==> product@
                == shared_secret_of(other, public_key_of(scalar@)),
{
    let mut k = [0u8; 32];
    k.copy_from_slice(scalar);
    let mut u = [0u8; 32];
    u.copy_from_slice(point);
    x25519_dalek::x25519(k, u).to_vec()
}

/// `rand::rngs::OsRng` through `rand::RngCore::try_fill_bytes`: `KEY_LEN`
/// bytes from the operating system, or `None` where it gave none. Nothing is
/// claimed of the bytes themselves.
#[verifier::external_body]
fn os_random_key() -> (bytes: Option<Vec<u8>>)
    ensures
        bytes matches Some(b) ==> b@.len() == KEY_LEN,
{
    let mut bytes = [0u8; 32];
    match rand::RngCore::try_fill_bytes(&mut rand::rngs::OsRng, &mut bytes) {
        Ok(()) => Some(bytes.to_vec()),
        Err(_) => None,
    }
}

fn base_point_bytes() -> (point: Vec<u8>)
    ensures
        point@ == base_point(),
{
    let mut point: Vec<u8> = Vec::new();
    point.push(9u8);
    while point.len() < KEY_LEN
        invariant
            1 <= point@.len() <= KEY_LEN,
            forall|i: int| 0 <= i < point@.len() ==> point@[i] == base_point()[i],
        decreases KEY_LEN - point@.len(),
    {
        point.push(0u8);
    }
    proof {
        assert(point@ =~= base_point());
    }
    point
}

/// An ephemeral key pair, held until the shared secret has been derived.
/// Both keys have `KEY_LEN` bytes and the public key belongs to the secret
/// key.
pub struct KeyMaterial {
    secret: Vec<u8>,
    public: Vec<u8>,
}

impl KeyMaterial {
    #[verifier::type_invariant]
    spec fn coherent(&self) -> bool {
        &&& self.secret@.len() == KEY_LEN
        &&& self.public@.len() == KEY_LEN
        &&& self.public@ == public_key_of(self.secret@)
    }

    /// The secret key.
    pub closed spec fn secret(&self) -> Seq<u8> {
        self.secret@
    }

    /// The key pair of `secret`; `None` where `secret` has not `KEY_LEN` bytes.
    pub fn from_secret(secret: &[u8]) -> (material: Option<Self>)
        ensures
            match material {
                Some(m) => secret@.len() == KEY_LEN && m.secret() == secret@,
                None => secret@.len() != KEY_LEN,
            },
    {
        if secret.len() != KEY_LEN {
            return None;
        }
        let base = base_point_bytes();
        let public = x25519(secret, base.as_slice());
        Some(KeyMaterial { secret: slice_to_vec(secret), public })
    }

    /// A key pair from fresh randomness of the operating system; `None`
    /// where the operating system gave none.
    pub fn generate() -> (material: Option<Self>)
        ensures
            material matches Some(m) ==> m.secret().len() == KEY_LEN,
    {
        match os_random_key() {
            Some(secret) => Self::from_secret(secret.as_slice()),
            None => None,
        }
    }

    /// Recalls that the secret key has `KEY_LEN` bytes.
    pub(crate) fn recall_key_len(&self)
        ensures
            self.secret().len() == KEY_LEN,
    {
        proof {
            use_type_invariant(self);
        }
    }

    /// The bytes of the public-key frame: the public key that belongs to the
    /// secret key.
    pub fn public_key(&self) -> (bytes: Vec<u8>)
        ensures
            bytes@ == public_key_of(self.secret()),
            bytes@.len() == KEY_LEN,
            self.secret().len() == KEY_LEN,
    {
        proof {
            use_type_invariant(self);
        }
        slice_to_vec(self.public.as_slice())
    }

    /// Consumes the key pair and derives the session's scalar from the peer's
    /// public-key frame. A frame that has not `KEY_LEN` bytes is a protocol
    /// violation. Both peers obtain the same scalar: where the frame holds
    /// the public key of a peer's secret, the scalar is the one that the peer
    /// derives from this pair's public key.
    pub fn agree(self, peer_public: &[u8]) -> (scalar: Result<u8, SessionError>)
        ensures
            scalar == agreed(self.secret(), peer_public@),
            forall|peer_secret: Seq<u8>|
                peer_secret.len() == KEY_LEN && peer_public@.len() == KEY_LEN && peer_public@
                    == #[trigger] public_key_of(peer_secret) ==> scalar == agreed(
                    peer_secret,
                    public_key_of(self.secret()),
                ),
    {
        proof {
            use_type_invariant(&self);
        }
        if peer_public.len() != KEY_LEN {
            return Err(SessionError::ProtocolViolation);
        }
        let shared = x25519(self.secret.as_slice(), peer_public);
        Ok(scalar_of(shared.as_slice()))
    }
}

/// Reads the session's scalar from a shared secret: the byte at
/// `SCALAR_INDEX`, an unsigned value from 0 to 255.
pub fn scalar_of(shared: &[u8]) -> (scalar: u8)
    requires
        shared@.len() == KEY_LEN,
    ensures
        scalar == negotiated_scalar(shared@),
{
    shared[SCALAR_INDEX]
}

/// The scalar that the holder of `secret` derives from the frame
/// `peer_public`.
pub open spec fn agreed(secret: Seq<u8>, peer_public: Seq<u8>) -> Result<u8, SessionError> {
    if peer_public.len() == KEY_LEN {
        Ok(negotiated_scalar(shared_secret_of(secret, peer_public)))
    } else {
        Err(SessionError::ProtocolViolation)
    }
}

} // verus!
