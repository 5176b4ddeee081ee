//! The sealing side: one bundle for every recipient of an item, and the
//! rule by which the item is confirmed.
//!
//! Every bundle is sealed under a key of its own, and every recipient is
//! attempted, whatever became of the others. An item is confirmed only when
//! all recipients have been attempted and every bundle has been persisted;
//! otherwise it is left in its source and is sealed again in full when it
//! is handed out again.

use vstd::prelude::*;
use crate::bundle::{Bundle, BundleView};
use crate::config::{Config, Target};
use crate::error::{ConfigError, FetchError, IntegrityError, PlatformError, RelayError};
use crate::rsa_keys::{
    json_string_members, public_document, public_key, significant, KeyFromUrl, PublicKeyView,
    RsaPubkey,
};
use crate::sources::{Data, DataView};
use crate::symmetric_cipher::{
    decrypting, encrypting, usable_key, SymmetricCipher, MAX_PLAINTEXT,
};

verus! {

/// Whether `ciphertext` is `payload` sealed under `key`: it is what the
/// cipher gives for them, and the cipher gives the payload back for it.
pub open spec fn sealed_by(ciphertext: Seq<u8>, key: Seq<u8>, payload: Seq<u8>) -> bool {
    &&& usable_key(key)
    &&& encrypting(key, payload) == Ok::<_, PlatformError>(ciphertext)
    &&& decrypting(key, ciphertext) == Ok::<_, IntegrityError>(payload)
}

/// The public key of a recipient, by what the fetch of its key document
/// gave: no text is a fetch error, a text that is no key document too, and
/// a document of which no key can be made is a key type error.
pub open spec fn recipient_key(fetched: Option<Seq<char>>) -> Result<PublicKeyView, RelayError> {
    match fetched {
        None => Err(RelayError::Fetch(FetchError::Unreachable)),
        Some(text) => match public_document(json_string_members(text)) {
            Err(e) => Err(RelayError::Fetch(FetchError::Document(e))),
            Ok(document) => match public_key(document) {
                Err(e) => Err(RelayError::KeyType(e)),
                Ok(key) => Ok(key),
            },
        },
    }
}

/// What the fetch gave, as plain text.
pub open spec fn text_of(fetched: Option<&str>) -> Option<Seq<char>> {
    match fetched {
        Some(text) => Some(text@),
        None => None,
    }
}

/// What sealing comes to before the key is wrapped: the ciphertext and the
/// recipient's public key. The plaintext is encrypted first; then the
/// recipient's key is made of what the fetch gave.
pub open spec fn prepared(key: Seq<u8>, plaintext: Seq<u8>, fetched: Option<Seq<char>>) -> Result<
    (Seq<u8>, PublicKeyView),
    RelayError,
> {
    match encrypting(key, plaintext) {
        Err(e) => Err(RelayError::Platform(e)),
        Ok(ciphertext) => match recipient_key(fetched) {
            Err(e) => Err(e),
            Ok(public) => Ok((ciphertext, public)),
        },
    }
}

/// Whether `bundle` is `plaintext` sealed for the recipient whose key
/// document the fetch gave as `fetched`: the ciphertext is the plaintext
/// under some usable key, and the wrapped key is as long as the modulus of
/// the recipient's key.
pub open spec fn sealed_to(bundle: BundleView, plaintext: Seq<u8>, fetched: Option<Seq<char>>) -> bool {
    &&& recipient_key(fetched) matches Ok(public)
    &&& bundle.enc_key.len() == significant(public.n)
    &&& exists|key: Seq<u8>| #[trigger] sealed_by(bundle.ciphertext, key, plaintext)
}

/// Whether sealing `plaintext` under a fresh key, for the recipient whose
/// key document the fetch gave as `fetched`, can end in the failure `e`.
///
/// A plaintext that is too long ends in that failure and no other. Else the
/// failure is the random source's, a drawn key of zero bytes, the cipher's
/// refusal under some key, the failure of the recipient's key, or, with a
/// good key, the refusal to wrap.
pub open spec fn refusal(e: RelayError, plaintext: Seq<u8>, fetched: Option<Seq<char>>) -> bool {
    if plaintext.len() > MAX_PLAINTEXT {
        e == RelayError::Platform(PlatformError::PayloadTooLarge)
    } else {
        ||| e == RelayError::Platform(PlatformError::RandomSource)
        ||| e == RelayError::Config(ConfigError::ZeroKey)
        ||| e == RelayError::Platform(PlatformError::Cipher) && exists|key: Seq<u8>|
            usable_key(key) && #[trigger] encrypting(key, plaintext) == Err::<Seq<u8>, _>(
                PlatformError::Cipher,
            )
        ||| recipient_key(fetched) == Err::<PublicKeyView, _>(e)
        ||| recipient_key(fetched) is Ok && e == RelayError::Platform(PlatformError::Rsa)
    }
}

/// Seals `plaintext` with the engine `cipher` for the recipient whose key
/// document the fetch gave as `fetched`.
///
/// The plaintext is encrypted under the engine's key, then the recipient's
/// key is made, and each failure of the two is reported as it is. With both
/// in hand only the wrapping can fail; the bundle holds the ciphertext and
/// a wrapped key as long as the recipient's modulus.
pub fn seal(cipher: SymmetricCipher, plaintext: &[u8], fetched: Option<&str>) -> (sealed: Result<
    Bundle,
    RelayError,
>)
    ensures
        match prepared(cipher.key(), plaintext@, text_of(fetched)) {
            Err(e) => sealed == Err::<Bundle, _>(e),
            Ok((ciphertext, public)) => match sealed {
                Ok(bundle) => {
                    &&& bundle@.ciphertext == ciphertext
                    &&& bundle@.enc_key.len() == significant(public.n)
                    &&& sealed_by(ciphertext, cipher.key(), plaintext@)
                },
                Err(e) => e == RelayError::Platform(PlatformError::Rsa),
            },
        },
{
    let key = cipher.get_key();
    let ciphertext = match cipher.encrypt(plaintext) {
        Ok(ciphertext) => ciphertext,
        Err(e) => { return Err(RelayError::Platform(e)); },
    };
    let document = match RsaPubkey::from_url(fetched) {
        Ok(document) => document,
        Err(e) => { return Err(RelayError::Fetch(e)); },
    };
    let public = match document.into_rsa_key() {
        Ok(public) => public,
        Err(e) => { return Err(RelayError::KeyType(e)); },
    };
    let enc_key = match public.encrypt_key(key.as_slice()) {
        Ok(wrapped) => wrapped,
        Err(e) => { return Err(RelayError::Platform(e)); },
    };
    Ok(Bundle { ciphertext, enc_key })
}

/// Seals `plaintext` under a fresh key for the recipient whose key document
/// the fetch gave as `fetched`.
///
/// A plaintext that is too long gives no bundle, and is the only cause of
/// that failure. A bundle that comes back is the plaintext sealed for the
/// recipient; a failure is one that `refusal` admits.
pub fn encrypt_for(plaintext: &[u8], fetched: Option<&str>) -> (sealed: Result<Bundle, RelayError>)
    ensures
        plaintext@.len() > MAX_PLAINTEXT <==> sealed == Err::<Bundle, _>(
            RelayError::Platform(PlatformError::PayloadTooLarge),
        ),
        match sealed {
            Ok(bundle) => sealed_to(bundle@, plaintext@, text_of(fetched)),
            Err(e) => refusal(e, plaintext@, text_of(fetched)),
        },
{
    if plaintext.len() > MAX_PLAINTEXT {
        return Err(RelayError::Platform(PlatformError::PayloadTooLarge));
    }
    let cipher = match SymmetricCipher::new(None) {
        Ok(cipher) => cipher,
        Err(e) => { return Err(e); },
    };
    let ghost key = cipher.key();
    let sealed = seal(cipher, plaintext, fetched);
    proof {
        if sealed is Ok {
            assert(sealed_by(sealed->Ok_0@.ciphertext, key, plaintext@));
        } else if sealed->Err_0 == RelayError::Platform(PlatformError::Cipher) {
            assert(encrypting(key, plaintext@) == Err::<Seq<u8>, _>(PlatformError::Cipher));
        }
    }
    sealed
}

/// A bundle on its way: the recipient's name, the name of the item, and the
/// bundle itself. Its place is `<recipient>/<item>` under the output root.
#[derive(Debug)]
pub struct Sealed {
    pub recipient: String,
    pub item: String,
    pub bundle: Bundle,
}

/// Whether `sealed` is the item `data` sealed for `target`, whose key
/// document the fetch gave as `document`.
pub open spec fn sealed_for(
    sealed: Sealed,
    target: Target,
    data: DataView,
    document: Option<Seq<char>>,
) -> bool {
    &&& sealed.recipient@ == target.name@
    &&& sealed.item@ == data.id
    &&& sealed_to(sealed.bundle@, data.contents, document)
}

/// Whether `outcome` is what came of sealing the item `data` for `target`,
/// whose key document the fetch gave as `document`: the item sealed for the
/// target, or a failure that sealing can end in. A payload that is too long
/// gives no bundle, and is the only cause of that failure.
pub open spec fn attempted(
    outcome: Result<Sealed, RelayError>,
    target: Target,
    data: DataView,
    document: Option<Seq<char>>,
) -> bool {
    &&& match outcome {
        Ok(sealed) => sealed_for(sealed, target, data, document),
        Err(e) => refusal(e, data.contents, document),
    }
    &&& data.contents.len() > MAX_PLAINTEXT <==> (outcome matches Err(e) && e
        == RelayError::Platform(PlatformError::PayloadTooLarge))
}

/// Seals the item `data` under a fresh key for the recipient `target`,
/// whose key document the fetch gave as `fetched`.
pub fn seal_for(data: &Data, target: &Target, fetched: Option<&str>) -> (sealed: Result<
    Sealed,
    RelayError,
>)
    ensures
        attempted(sealed, *target, data@, text_of(fetched)),
{
    match encrypt_for(data.contents.as_slice(), fetched) {
        Ok(bundle) => Ok(Sealed { recipient: target.name.clone(), item: data.id.clone(), bundle }),
        Err(e) => Err(e),
    }
}

/// What the fetch of the key document of the recipient at `at` gave. A
/// recipient for whom nothing was fetched has none.
pub open spec fn document_for(fetched: Seq<Option<String>>, at: int) -> Option<Seq<char>> {
    if 0 <= at < fetched.len() {
        match fetched[at] {
            Some(text) => Some(text@),
            None => None,
        }
    } else {
        None
    }
}

/// Seals the item `data` for every recipient of `config`, each under a key
/// of its own; `fetched` holds what the fetch of each recipient's key
/// document gave, in the order of the recipients.
///
/// No recipient at all is a configuration error, and the only one. Else
/// every recipient is attempted, whatever became of the others, and what
/// came of each comes back in the order of the recipients.
pub fn handle_data(data: &Data, config: &Config, fetched: &Vec<Option<String>>) -> (outcomes: Result<
    Vec<Result<Sealed, RelayError>>,
    ConfigError,
>)
    ensures
        match outcomes {
            Err(e) => e == ConfigError::NoRecipients && config.targets@.len() == 0,
            Ok(all) => {
                &&& config.targets@.len() > 0
                &&& all@.len() == config.targets@.len()
                &&& forall|i: int|
                    0 <= i < all@.len() ==> attempted(
                        #[trigger] all@[i],
                        config.targets@[i],
                        data@,
                        document_for(fetched@, i),
                    )
            },
        },
{
    if config.targets.len() == 0 {
        return Err(ConfigError::NoRecipients);
    }
    let mut all: Vec<Result<Sealed, RelayError>> = Vec::new();
    let mut i: usize = 0;
    while i < config.targets.len()
        invariant
            i <= config.targets@.len(),
            all@.len() == i,
            forall|j: int|
                0 <= j < i ==> attempted(
                    #[trigger] all@[j],
                    config.targets@[j],
                    data@,
                    document_for(fetched@, j),
                ),
        decreases config.targets.len() - i,
    {
        let document: Option<&str> = if i < fetched.len() {
            match &fetched[i] {
                Some(text) => Some(text.as_str()),
                None => None,
            }
        } else {
            None
        };
        assert(text_of(document) == document_for(fetched@, i as int));
        let outcome = seal_for(data, &config.targets[i], document);
        all.push(outcome);
        i += 1;
    }
    Ok(all)
}

/// What becomes of an item.
#[derive(Clone, Copy, Debug, PartialEq, Eq)]
pub enum Verdict {
    /// Not every recipient has been attempted yet.
    Pending,
    /// Every recipient's bundle is persisted: the item is confirmed.
    Confirm,
    /// Every recipient has been attempted and a bundle is missing: the
    /// item stays in its source.
    LeaveUnconfirmed,
}

/// The account of one item's bundles: how many recipients there are, how
/// many have been attempted, and whether a bundle is missing.
#[derive(Clone, Copy, Debug, PartialEq, Eq)]
pub struct Delivery {
    recipients: usize,
    attempted: usize,
    failed: bool,
}

/// An account as plain values.
pub struct DeliveryView {
    pub recipients: nat,
    pub attempted: nat,
    pub failed: bool,
}

/// The account after one more recipient was attempted: whether its bundle
/// was sealed and persisted. Once every recipient has been attempted,
/// nothing is counted any more.
pub open spec fn after_outcome(delivery: DeliveryView, persisted: bool) -> DeliveryView {
    if delivery.attempted >= delivery.recipients {
        delivery
    } else {
        DeliveryView {
            attempted: delivery.attempted + 1,
            failed: delivery.failed || !persisted,
            ..delivery
        }
    }
}

/// What becomes of the item, by its account.
pub open spec fn verdict_of(delivery: DeliveryView) -> Verdict {
    if delivery.attempted < delivery.recipients {
        Verdict::Pending
    } else if delivery.failed {
        Verdict::LeaveUnconfirmed
    } else {
        Verdict::Confirm
    }
}

/// The account of an item for `recipients` recipients after the outcomes
/// `outcomes`, in their order.
pub open spec fn after_outcomes(recipients: nat, outcomes: Seq<bool>) -> DeliveryView
    decreases outcomes.len(),
{
    if outcomes.len() == 0 {
        DeliveryView { recipients, attempted: 0, failed: false }
    } else {
        after_outcome(after_outcomes(recipients, outcomes.drop_last()), outcomes.last())
    }
}

impl View for Delivery {
    type V = DeliveryView;

    closed spec fn view(&self) -> DeliveryView {
        DeliveryView {
            recipients: self.recipients as nat,
            attempted: self.attempted as nat,
            failed: self.failed,
        }
    }
}

impl Delivery {
    #[verifier::type_invariant]
    spec fn counted(self) -> bool {
        self.attempted <= self.recipients
    }

    /// The account of an item that goes to `recipients` recipients. No
    /// recipient at all is a configuration error.
    pub fn begin(recipients: usize) -> (delivery: Result<Delivery, ConfigError>)
        ensures
            match delivery {
                Ok(account) => recipients > 0 && account@ == after_outcomes(
                    recipients as nat,
                    Seq::empty(),
                ),
                Err(e) => recipients == 0 && e == ConfigError::NoRecipients,
            },
    {
        if recipients == 0 {
            Err(ConfigError::NoRecipients)
        } else {
            Ok(Delivery { recipients, attempted: 0, failed: false })
        }
    }

    /// The number of recipients that have been attempted: where the item is
    /// pending, the place of the recipient to attempt next.
    pub fn attempted(&self) -> (attempted: usize)
        ensures
            attempted == self@.attempted,
            attempted <= self@.recipients,
    {
        proof {
            use_type_invariant(self);
        }
        self.attempted
    }

    /// The account after one more recipient was attempted.
    pub fn record(self, persisted: bool) -> (delivery: Delivery)
        ensures
            delivery@ == after_outcome(self@, persisted),
    {
        proof {
            use_type_invariant(self);
        }
        if self.attempted >= self.recipients {
            self
        } else {
            Delivery {
                attempted: self.attempted + 1,
                failed: self.failed || !persisted,
                ..self
            }
        }
    }

    /// What becomes of the item.
    pub fn verdict(&self) -> (verdict: Verdict)
        ensures
            verdict == verdict_of(self@),
    {
        if self.attempted < self.recipients {
            Verdict::Pending
        } else if self.failed {
            Verdict::LeaveUnconfirmed
        } else {
            Verdict::Confirm
        }
    }
}

/// How far the outcomes got: every outcome counts until every recipient
/// has been attempted, and a bundle is missing if one of those failed.
proof fn lemma_account(recipients: nat, outcomes: Seq<bool>)
    ensures
        ({
            let account = after_outcomes(recipients, outcomes);
            &&& account.recipients == recipients
            &&& account.attempted == if outcomes.len() < recipients {
                outcomes.len()
            } else {
                recipients
            }
            &&& account.failed <==> exists|i: int|
                0 <= i < account.attempted && !#[trigger] outcomes[i]
        }),
    decreases outcomes.len(),
{
    if outcomes.len() > 0 {
        let earlier = outcomes.drop_last();
        lemma_account(recipients, earlier);
        let before = after_outcomes(recipients, earlier);
        let account = after_outcomes(recipients, outcomes);
        assert(account == after_outcome(before, outcomes.last()));
        assert forall|i: int| 0 <= i < earlier.len() implies earlier[i] == outcomes[i] by {}
        if before.failed {
            let i = choose|i: int| 0 <= i < before.attempted && !#[trigger] earlier[i];
            assert(!outcomes[i]);
        }
        if account.failed && !before.failed {
            assert(!outcomes[before.attempted as int]);
        }
        if exists|i: int| 0 <= i < account.attempted && !#[trigger] outcomes[i] {
            let i = choose|i: int| 0 <= i < account.attempted && !#[trigger] outcomes[i];
            if i < before.attempted {
                assert(!earlier[i]);
            }
        }
    }
}

/// An item is confirmed exactly when every recipient has been attempted
/// and every bundle was persisted. It is left unconfirmed exactly when
/// every recipient has been attempted and a bundle is missing, and it is
/// pending as long as a recipient has not been attempted.
pub proof fn lemma_confirm_only_when_all_persisted(recipients: nat, outcomes: Seq<bool>)
    ensures
        verdict_of(after_outcomes(recipients, outcomes)) == Verdict::Confirm <==> recipients
            <= outcomes.len() && forall|i: int| 0 <= i < recipients ==> outcomes[i],
        verdict_of(after_outcomes(recipients, outcomes)) == Verdict::LeaveUnconfirmed
            <==> recipients <= outcomes.len() && exists|i: int|
            0 <= i < recipients && !#[trigger] outcomes[i],
        verdict_of(after_outcomes(recipients, outcomes)) == Verdict::Pending <==> outcomes.len()
            < recipients,
{
    lemma_account(recipients, outcomes);
}

} // verus!
