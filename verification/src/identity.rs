//! The node's own identity: a secret key, made once and kept in the store,
//! and the node identifier that follows from it.

use vstd::prelude::*;

verus! {

/// The identity of the node.
#[derive(Debug, Clone, PartialEq, Eq)]
pub struct NodeIdentity {
    /// The raw bytes of the secp256k1 secret key.
    pub secret: Vec<u8>,
    /// The node identifier that belongs to the key, in base 58.
    pub peer_id: String,
}

/// The mathematical content of a [`NodeIdentity`].
pub struct IdentityView {
    pub secret: Seq<u8>,
    pub peer_id: Seq<char>,
}

impl View for NodeIdentity {
    type V = IdentityView;

    open spec fn view(&self) -> IdentityView {
        IdentityView { secret: self.secret@, peer_id: self.peer_id@ }
    }
}

/// An identity, and whether it was made just now. One that was made just
/// now is not in the store yet: its secret has to be written there before
/// the node goes on.
#[derive(Debug, Clone, PartialEq, Eq)]
pub struct LoadedIdentity {
    pub identity: NodeIdentity,
    pub created: bool,
}

/// The mathematical content of a [`LoadedIdentity`].
pub struct LoadedView {
    pub identity: IdentityView,
    pub created: bool,
}

impl View for LoadedIdentity {
    type V = LoadedView;

    open spec fn view(&self) -> LoadedView {
        LoadedView { identity: self.identity@, created: self.created }
    }
}

/// Why no identity could be had.
#[derive(Debug, Clone, Copy, PartialEq, Eq, Structural)]
pub enum IdentityError {
    /// The bytes found in the store are no secret key.
    InvalidStoredKey,
    /// The bytes that were generated are no secret key.
    InvalidGeneratedKey,
}

/// The node identifier that belongs to the secret key with these raw
/// bytes, as libp2p derives it: the base-58 text of the peer id of the
/// public key. `None` where the bytes are no secp256k1 secret key.
pub uninterp spec fn node_id_of_secret(secret: Seq<u8>) -> Option<Seq<char>>;

/// Reads the bytes as a secret key with
/// `libp2p::identity::secp256k1::SecretKey::try_from_bytes`, on a copy
/// since that call wipes what it read, and turns the key into the text of
/// its node identifier: key pair, public key, `to_peer_id`, `to_base58`.
/// What comes back depends on the bytes alone.
#[verifier::external_body]
fn derive_node_id(secret: &Vec<u8>) -> (id: Option<String>)
    ensures
        match id {
            Some(text) => node_id_of_secret(secret@) == Some(text@),
            None => node_id_of_secret(secret@) is None,
        },
{
    let mut raw = secret.clone();
    let key = libp2p::identity::secp256k1::SecretKey::try_from_bytes(&mut raw).ok()?;
    let pair = libp2p::identity::Keypair::from(libp2p::identity::secp256k1::Keypair::from(key));
    Some(pair.public().to_peer_id().to_base58())
}

/// Makes a new random secret key with
/// `libp2p::identity::secp256k1::SecretKey::generate` and hands out its raw
/// bytes, as `to_bytes` gives them. Which key comes out is left open: every
/// call gives another. Whichever it is, its bytes are 32, and they are the
/// bytes of a secret key, since a generated key is a scalar that is not
/// zero and lies below the order of the curve, written out in full.
#[verifier::external_body]
fn fresh_secret() -> (secret: Vec<u8>)
    ensures
        secret@.len() == 32,
        node_id_of_secret(secret@) is Some,
{
    libp2p::identity::secp256k1::SecretKey::generate().to_bytes().to_vec()
}

/// The identity that the node takes on, given the secret found in the
/// store, if any, and a secret generated for the case that there is none.
/// A stored secret is used as it is and nothing is made; without one the
/// generated secret becomes the identity and is marked as made just now.
/// Bytes that are no secret key fail.
pub open spec fn resolved(stored: Option<Seq<u8>>, fresh: Seq<u8>) -> Result<
    LoadedView,
    IdentityError,
> {
    match stored {
        Some(secret) => match node_id_of_secret(secret) {
            Some(peer_id) => Ok(
                LoadedView { identity: IdentityView { secret, peer_id }, created: false },
            ),
            None => Err(IdentityError::InvalidStoredKey),
        },
        None => match node_id_of_secret(fresh) {
            Some(peer_id) => Ok(
                LoadedView { identity: IdentityView { secret: fresh, peer_id }, created: true },
            ),
            None => Err(IdentityError::InvalidGeneratedKey),
        },
    }
}

/// Whether a result is what the model says.
pub open spec fn same_identity(
    got: Result<LoadedIdentity, IdentityError>,
    want: Result<LoadedView, IdentityError>,
) -> bool {
    match got {
        Ok(loaded) => want == Ok::<LoadedView, IdentityError>(loaded@),
        Err(e) => want == Err::<LoadedView, IdentityError>(e),
    }
}

/// What the store holds under the identity key after the identity was
/// taken on: a secret made just now, once written; else what was there.
pub open spec fn kept(stored: Option<Seq<u8>>, fresh: Seq<u8>) -> Option<Seq<u8>> {
    match resolved(stored, fresh) {
        Ok(loaded) => if loaded.created {
            Some(loaded.identity.secret)
        } else {
            stored
        },
        Err(_) => stored,
    }
}

/// The identity is stable: once an identity was taken on and its secret
/// kept, taking on the identity again gives the same secret and the same
/// node identifier, makes nothing new, and leaves the store as it is,
/// whatever is generated in between.
pub proof fn lemma_identity_is_stable(stored: Option<Seq<u8>>, first: Seq<u8>, second: Seq<u8>)
    requires
        resolved(stored, first) is Ok,
    ensures
        resolved(kept(stored, first), second) is Ok,
        resolved(kept(stored, first), second)->Ok_0.identity == resolved(
            stored,
            first,
        )->Ok_0.identity,
        !resolved(kept(stored, first), second)->Ok_0.created,
        kept(kept(stored, first), second) == kept(stored, first),
{
}

/// Takes on the identity, given the secret found in the store, if any, and
/// a secret to use where there is none.
pub fn identity_from(stored: Option<Vec<u8>>, fresh: Vec<u8>) -> (r: Result<
    LoadedIdentity,
    IdentityError,
>)
    ensures
        same_identity(
            r,
            resolved(
                match stored {
                    Some(s) => Some(s@),
                    None => None,
                },
                fresh@,
            ),
        ),
{
    match stored {
        Some(secret) => match derive_node_id(&secret) {
            Some(peer_id) => Ok(
                LoadedIdentity { identity: NodeIdentity { secret, peer_id }, created: false },
            ),
            None => Err(IdentityError::InvalidStoredKey),
        },
        None => match derive_node_id(&fresh) {
            Some(peer_id) => Ok(
                LoadedIdentity { identity: NodeIdentity { secret: fresh, peer_id }, created: true },
            ),
            None => Err(IdentityError::InvalidGeneratedKey),
        },
    }
}

/// Loads the identity from the secret found in the store, or makes a new
/// one where the store holds none. With a stored secret the outcome is
/// fixed by it. Without one the call succeeds: the identity is marked as
/// made just now, its secret is 32 bytes long, and its node identifier is
/// the one that belongs to that secret.
pub fn load_or_create_identity(stored: Option<Vec<u8>>) -> (r: Result<
    LoadedIdentity,
    IdentityError,
>)
    ensures
        stored matches Some(s) ==> same_identity(r, resolved(Some(s@), Seq::empty())),
        stored is None ==> (r matches Ok(loaded) && loaded.created
            && loaded.identity.secret@.len() == 32 && node_id_of_secret(loaded.identity.secret@)
            == Some(loaded.identity.peer_id@)),
{
    match stored {
        Some(secret) => identity_from(Some(secret), Vec::new()),
        None => identity_from(None, fresh_secret()),
    }
}

} // verus!
