//! Seal state of the vault: initialization parameters, the buffer of
//! submitted unseal shares and the status reported to clients.
//!
//! Splitting and combining the master key and decrypting the root key are
//! done by the crypto service; this module decides when they happen and
//! what is answered.

use vstd::prelude::*;
use vstd::utf8::encode_utf8;
use crate::digest::{base64_decode, base64_decoded, base64_encode, base64_encoded, hex_decode, hex_decoded, hex_encode, hex_of};
use crate::ids::{random_uuid, uuid_hyphenated, uuid_text};
use crate::text::{chars_of, owned, push_str, string_from_chars};

verus! {

/// Storage path of the initialization parameters.
pub const INIT_PATH: &'static str = "sys/init";

/// Storage path of the encrypted root key.
pub const ROOT_KEY_PATH: &'static str = "sys/root_key_enc";

/// Lifetime of the root token issued on unseal, in seconds.
pub const ROOT_TOKEN_SECONDS: i64 = 3600;

/// A failure of a seal operation, with its message.
#[derive(Debug)]
pub struct SealError {
    pub message: String,
}

/// The result is a seal error with this message.
pub open spec fn seal_err<T>(r: Result<T, SealError>, msg: Seq<char>) -> bool {
    r matches Err(e) && e.message@ == msg
}

fn seal_error(msg: &str) -> (e: SealError)
    ensures
        e.message@ == msg@,
{
    SealError { message: owned(msg) }
}

/// The initialization parameters: how many shares the master key is split
/// into, and how many unseal it.
#[derive(Debug, Clone, Copy, PartialEq, Eq, Structural)]
pub struct InitConfig {
    pub shares: u8,
    pub threshold: u8,
}

/// The refusal owed to an initialization request, if any.
pub open spec fn init_refusal(initialized: bool, shares: u8, threshold: u8) -> Option<Seq<char>> {
    if initialized {
        Some("System already initialized"@)
    } else if threshold > shares {
        Some("Threshold cannot be greater than shares"@)
    } else if threshold < 2 {
        Some("Threshold must be at least 2"@)
    } else {
        None
    }
}

/// Checks an initialization request: the vault must not be initialized
/// yet, and the threshold must lie between 2 and the number of shares.
pub fn validate_init(initialized: bool, shares: u8, threshold: u8) -> (r: Result<
    InitConfig,
    SealError,
>)
    ensures
        match init_refusal(initialized, shares, threshold) {
            Some(m) => seal_err(r, m),
            None => r == Ok::<InitConfig, SealError>(InitConfig { shares, threshold }),
        },
{
    if initialized {
        return Err(seal_error("System already initialized"));
    }
    if threshold > shares {
        return Err(seal_error("Threshold cannot be greater than shares"));
    }
    if threshold < 2 {
        return Err(seal_error("Threshold must be at least 2"));
    }
    Ok(InitConfig { shares, threshold })
}

/// The texts handed out for the serialized shares: hexadecimal and
/// standard base64, share by share.
pub fn share_texts(serialized: &Vec<Vec<u8>>) -> (r: (Vec<String>, Vec<String>))
    ensures
        r.0@.len() == serialized@.len(),
        r.1@.len() == serialized@.len(),
        forall|i: int| 0 <= i < serialized@.len() ==> (#[trigger] r.0@[i])@ == hex_of(serialized@[i]@),
        forall|i: int|
            0 <= i < serialized@.len() ==> (#[trigger] r.1@[i])@ == base64_encoded(serialized@[i]@),
{
    let n = serialized.len();
    let mut hex: Vec<String> = Vec::new();
    let mut b64: Vec<String> = Vec::new();
    for i in 0..n
        invariant
            n == serialized@.len(),
            hex@.len() == i,
            b64@.len() == i,
            forall|k: int| 0 <= k < i ==> (#[trigger] hex@[k])@ == hex_of(serialized@[k]@),
            forall|k: int| 0 <= k < i ==> (#[trigger] b64@[k])@ == base64_encoded(serialized@[k]@),
    {
        hex.push(hex_encode(serialized[i].as_slice()));
        b64.push(base64_encode(serialized[i].as_slice()));
    }
    (hex, b64)
}

/// The answer to an initialization: the shares in hexadecimal and in
/// base64, and the enrollment URI of the root user's authenticator.  No
/// root token is handed out.
#[derive(Debug)]
pub struct InitResponse {
    pub keys: Vec<String>,
    pub keys_base64: Vec<String>,
    pub root_totp_uri: String,
}

/// The answer to an initialization, from the serialized shares and the
/// root user's enrollment URI.
pub fn init_response(serialized: &Vec<Vec<u8>>, root_totp_uri: String) -> (r: InitResponse)
    ensures
        r.keys@.len() == serialized@.len(),
        r.keys_base64@.len() == serialized@.len(),
        forall|i: int| 0 <= i < serialized@.len() ==> (#[trigger] r.keys@[i])@ == hex_of(serialized@[i]@),
        forall|i: int|
            0 <= i < serialized@.len() ==> (#[trigger] r.keys_base64@[i])@ == base64_encoded(
                serialized@[i]@,
            ),
        r.root_totp_uri@ == root_totp_uri@,
{
    let (keys, keys_base64) = share_texts(serialized);
    InitResponse { keys, keys_base64, root_totp_uri }
}

/// The password given to the root user, which never logs in with one: two
/// random UUIDs, hyphenated, one after the other.
pub fn root_placeholder_password() -> (p: String)
    ensures
        exists|a: u128, b: u128| p@ == uuid_hyphenated(a) + uuid_hyphenated(b),
{
    let a = uuid_text(random_uuid());
    let b = uuid_text(random_uuid());
    let mut v = chars_of(a.as_str());
    push_str(&mut v, b.as_str());
    string_from_chars(v.as_slice())
}

/// The bytes of a submitted share: its hexadecimal reading, else its
/// standard base64 reading.
pub open spec fn share_bytes_of(text: Seq<char>) -> Option<Seq<u8>> {
    match hex_decoded(text) {
        Some(b) => Some(b),
        None => base64_decoded(encode_utf8(text)),
    }
}

/// Decodes a submitted share, trying hexadecimal first, then base64.
pub fn decode_share(text: &str) -> (r: Result<Vec<u8>, SealError>)
    ensures
        match share_bytes_of(text@) {
            Some(b) => r matches Ok(v) && v@ == b,
            None => seal_err(r, "Invalid share format (expected hex or base64)"@),
        },
{
    match hex_decode(text) {
        Some(b) => Ok(b),
        None => match base64_decode(text.as_bytes()) {
            Some(b) => Ok(b),
            None => Err(seal_error("Invalid share format (expected hex or base64)")),
        },
    }
}

/// A share of the master key.
#[derive(Debug)]
pub struct Share {
    pub index: u8,
    pub data: Vec<u8>,
}

/// The status reported to clients.
#[derive(Debug)]
pub struct UnsealResponse {
    pub sealed: bool,
    /// Shares needed.
    pub t: usize,
    /// Shares issued.
    pub n: usize,
    /// Shares submitted so far.
    pub progress: usize,
    pub root_token: Option<String>,
}

/// The shares held so far: each share index at most once.
pub struct UnsealBuffer {
    pub shares: Vec<Share>,
}

/// No two shares share an index.
pub open spec fn distinct_indices(s: Seq<Share>) -> bool {
    forall|i: int, j: int| 0 <= i < j < s.len() ==> (#[trigger] s[i]).index != (#[trigger] s[j]).index
}

/// Some share has this index.
pub open spec fn holds_index(s: Seq<Share>, index: u8) -> bool {
    exists|i: int| 0 <= i < s.len() && (#[trigger] s[i]).index == index
}

/// The shares held after submitting `share`: unchanged when its index is
/// already held, else with the share added.
pub open spec fn after_submit(s: Seq<Share>, share: Share) -> Seq<Share> {
    if holds_index(s, share.index) {
        s
    } else {
        s.push(share)
    }
}

impl UnsealBuffer {
    /// No share index is held twice.
    pub open spec fn wf(&self) -> bool {
        distinct_indices(self.shares@)
    }

    /// An empty buffer.
    pub fn new() -> (b: Self)
        ensures
            b.wf(),
            b.shares@.len() == 0,
    {
        UnsealBuffer { shares: Vec::new() }
    }

    /// How many shares are held.
    pub fn progress(&self) -> (n: usize)
        ensures
            n == self.shares@.len(),
    {
        self.shares.len()
    }

    fn has_index(&self, index: u8) -> (b: bool)
        ensures
            b == holds_index(self.shares@, index),
    {
        let n = self.shares.len();
        for i in 0..n
            invariant
                n == self.shares@.len(),
                forall|k: int| 0 <= k < i ==> (#[trigger] self.shares@[k]).index != index,
        {
            if self.shares[i].index == index {
                return true;
            }
        }
        false
    }

    /// Adds a submitted share unless one with its index is already held,
    /// then tells whether `threshold` shares are held.
    pub fn submit(&mut self, share: Share, threshold: usize) -> (reached: bool)
        requires
            old(self).wf(),
        ensures
            final(self).wf(),
            final(self).shares@ == after_submit(old(self).shares@, share),
            reached == (final(self).shares@.len() >= threshold),
    {
        if !self.has_index(share.index) {
            let ghost before = self.shares@;
            self.shares.push(share);
            proof {
                let s = self.shares@;
                assert forall|i: int, j: int| 0 <= i < j < s.len() implies (#[trigger] s[i]).index
                    != (#[trigger] s[j]).index by {
                    if j == s.len() - 1 {
                        assert(s[i] == before[i]);
                        if s[i].index == s[j].index {
                            assert(holds_index(before, s[j].index));
                        }
                    } else {
                        assert(s[i] == before[i] && s[j] == before[j]);
                    }
                }
            }
        }
        self.shares.len() >= threshold
    }

    /// Drops every held share (after a successful unseal, or on sealing).
    pub fn clear(&mut self)
        ensures
            final(self).wf(),
            final(self).shares@.len() == 0,
    {
        self.shares = Vec::new();
    }
}

/// The status of the vault: threshold and share count from the stored
/// initialization parameters (zero when there are none), progress from
/// the buffer, and no token.
pub fn status(sealed: bool, config: Option<InitConfig>, progress: usize) -> (r: UnsealResponse)
    ensures
        r.sealed == sealed,
        r.t == match config {
            Some(c) => c.threshold as usize,
            None => 0,
        },
        r.n == match config {
            Some(c) => c.shares as usize,
            None => 0,
        },
        r.progress == progress,
        r.root_token is None,
{
    let (t, n) = match config {
        Some(c) => (c.threshold as usize, c.shares as usize),
        None => (0, 0),
    };
    UnsealResponse { sealed, t, n, progress, root_token: None }
}

/// The seal state of the vault: the stored initialization parameters
/// (present once initialized), whether the crypto service holds the root
/// key (the vault is unsealed), and the shares submitted so far.
pub struct Vault {
    pub config: Option<InitConfig>,
    pub key_loaded: bool,
    pub buffer: UnsealBuffer,
}

/// What submitting a share to the vault led to.
#[derive(Debug, Clone, Copy, PartialEq, Eq, Structural)]
pub enum UnsealStep {
    /// The vault was already unsealed; nothing changed.
    AlreadyUnsealed,
    /// The share was held; fewer than the threshold are held.
    Pending,
    /// The threshold is reached: the held shares are to be combined and the
    /// root key decrypted with the result.
    ThresholdReached,
}

impl Vault {
    /// The buffer holds each share index at most once.
    pub open spec fn wf(&self) -> bool {
        self.buffer.wf()
    }

    /// The vault is initialized.
    pub open spec fn initialized(&self) -> bool {
        self.config is Some
    }

    /// The vault is sealed.
    pub open spec fn sealed(&self) -> bool {
        !self.key_loaded
    }

    /// A fresh vault: not initialized, sealed, no shares.
    pub fn new() -> (v: Self)
        ensures
            v.wf(),
            !v.initialized(),
            v.sealed(),
            v.buffer.shares@.len() == 0,
    {
        Vault { config: None, key_loaded: false, buffer: UnsealBuffer::new() }
    }

    /// Whether the vault is initialized.
    pub fn is_initialized(&self) -> (b: bool)
        ensures
            b == self.initialized(),
    {
        self.config.is_some()
    }

    /// Whether the vault is sealed.
    pub fn is_sealed(&self) -> (b: bool)
        ensures
            b == self.sealed(),
    {
        !self.key_loaded
    }

    /// The status reported to clients.
    pub fn get_status(&self) -> (r: UnsealResponse)
        ensures
            r.sealed == self.sealed(),
            r.t == match self.config {
                Some(c) => c.threshold as usize,
                None => 0,
            },
            r.n == match self.config {
                Some(c) => c.shares as usize,
                None => 0,
            },
            r.progress == self.buffer.shares@.len(),
            r.root_token is None,
    {
        status(!self.key_loaded, self.config, self.buffer.progress())
    }

    /// Initializes the vault with `shares` shares of which `threshold`
    /// unseal it.  Refused (nothing changes) when already initialized or
    /// the parameters are invalid; otherwise the parameters are recorded
    /// and the vault stays sealed: the root key is held only while the root
    /// user is created and is dropped again.
    pub fn init(&mut self, shares: u8, threshold: u8) -> (r: Result<InitConfig, SealError>)
        requires
            old(self).wf(),
        ensures
            final(self).wf(),
            match init_refusal(old(self).initialized(), shares, threshold) {
                Some(m) => seal_err(r, m) && final(self).config == old(self).config
                    && final(self).key_loaded == old(self).key_loaded && final(self).buffer.shares@
                    == old(self).buffer.shares@,
                None => r == Ok::<InitConfig, SealError>(InitConfig { shares, threshold })
                    && final(self).config == Some(InitConfig { shares, threshold })
                    && final(self).sealed() && final(self).buffer.shares@
                    == old(self).buffer.shares@,
            },
    {
        let c = validate_init(self.config.is_some(), shares, threshold);
        match c {
            Err(e) => Err(e),
            Ok(cfg) => {
                self.config = Some(cfg);
                self.key_loaded = false;
                Ok(cfg)
            },
        }
    }

    /// Submits a share.  Refused when the vault is not initialized; an
    /// unsealed vault ignores it; otherwise the share is held (once per
    /// index) and the answer tells whether the threshold is reached.
    pub fn unseal(&mut self, share: Share) -> (r: Result<UnsealStep, SealError>)
        requires
            old(self).wf(),
        ensures
            final(self).wf(),
            final(self).config == old(self).config,
            final(self).key_loaded == old(self).key_loaded,
            !old(self).initialized() ==> seal_err(r, "System not initialized"@)
                && final(self).buffer.shares@ == old(self).buffer.shares@,
            old(self).initialized() && !old(self).sealed() ==> r == Ok::<UnsealStep, SealError>(
                UnsealStep::AlreadyUnsealed,
            ) && final(self).buffer.shares@ == old(self).buffer.shares@,
            old(self).initialized() && old(self).sealed() ==> final(self).buffer.shares@
                == after_submit(old(self).buffer.shares@, share) && r == Ok::<
                UnsealStep,
                SealError,
            >(
                if final(self).buffer.shares@.len() >= old(self).config.unwrap().threshold {
                    UnsealStep::ThresholdReached
                } else {
                    UnsealStep::Pending
                },
            ),
    {
        let cfg = match self.config {
            None => {
                return Err(seal_error("System not initialized"));
            },
            Some(c) => c,
        };
        if self.key_loaded {
            return Ok(UnsealStep::AlreadyUnsealed);
        }
        if self.buffer.submit(share, cfg.threshold as usize) {
            Ok(UnsealStep::ThresholdReached)
        } else {
            Ok(UnsealStep::Pending)
        }
    }

    /// Records that the root key was decrypted with the combined shares:
    /// the vault is unsealed and the held shares are dropped.
    pub fn unsealed(&mut self)
        ensures
            final(self).wf(),
            final(self).config == old(self).config,
            !final(self).sealed(),
            final(self).buffer.shares@.len() == 0,
    {
        self.key_loaded = true;
        self.buffer.clear();
    }

    /// Seals the vault: the root key is dropped and the held shares with
    /// it; the initialization parameters stay.
    pub fn seal(&mut self)
        ensures
            final(self).wf(),
            final(self).config == old(self).config,
            final(self).sealed(),
            final(self).buffer.shares@.len() == 0,
    {
        self.key_loaded = false;
        self.buffer.clear();
    }
}

/// The answer to a successful unseal: unsealed, with the threshold and the
/// root token.
pub fn unsealed_response(threshold: usize, root_token: String) -> (r: UnsealResponse)
    ensures
        !r.sealed,
        r.t == threshold,
        r.n == 0,
        r.progress == 0,
        r.root_token == Some(root_token),
{
    UnsealResponse { sealed: false, t: threshold, n: 0, progress: 0, root_token: Some(root_token) }
}

/// The claims of the root token issued on unseal.
#[derive(Debug)]
pub struct RootClaims {
    pub sub: String,
    pub username: String,
    pub email: String,
    pub roles: Vec<String>,
    pub policies: Vec<String>,
    pub iat: usize,
    pub exp: usize,
    pub jti: String,
    pub iss: String,
    pub aud: String,
    pub token_type: String,
}

/// The claims of a root token issued at `now` (Unix seconds) for one hour:
/// subject and user "root", roles root and admin, policy root, an access
/// token.  Times are taken modulo the width of `usize`, as an `as` cast
/// does.
pub fn root_claims(now: i64, jti: String, issuer: String, audience: String) -> (c: RootClaims)
    requires
        now <= i64::MAX - ROOT_TOKEN_SECONDS,
    ensures
        c.sub@ == "root"@,
        c.username@ == "root"@,
        c.email@ == "root@system.local"@,
        c.roles@.len() == 2 && c.roles@[0]@ == "root"@ && c.roles@[1]@ == "admin"@,
        c.policies@.len() == 1 && c.policies@[0]@ == "root"@,
        c.iat == now as usize,
        c.exp == (now + ROOT_TOKEN_SECONDS) as usize,
        c.jti == jti,
        c.iss == issuer,
        c.aud == audience,
        c.token_type@ == "access"@,
{
    let mut roles: Vec<String> = Vec::new();
    roles.push(owned("root"));
    roles.push(owned("admin"));
    let mut policies: Vec<String> = Vec::new();
    policies.push(owned("root"));
    #[verifier::truncate]
    let iat = now as usize;
    #[verifier::truncate]
    let exp = (now + ROOT_TOKEN_SECONDS) as usize;
    RootClaims {
        sub: owned("root"),
        username: owned("root"),
        email: owned("root@system.local"),
        roles,
        policies,
        iat,
        exp,
        jti,
        iss: issuer,
        aud: audience,
        token_type: owned("access"),
    }
}

} // verus!
