//! Wallets: an Ed25519 key pair in hexadecimal and the address derived from it.

use vstd::prelude::*;
use vstd::string::*;
use crate::hex_codec::{
    ascii_lowercase, decode_hex, encode_hex, hex_bytes, hex_lower, is_hex_text,
    lemma_hex_ignores_case, lemma_hex_lower_is_hex_text, lemma_hex_round_trip,
};
use crate::keys::{ed25519_public_key, generate_secret_key, public_key_of};

verus! {

/// A wallet as the service hands it out. All three fields are text: the
/// address, the public key in lower-case hexadecimal, and the secret key as
/// it was written (lower-case hexadecimal for a new wallet, the user's own
/// text for an imported one).
#[derive(Debug, Clone)]
pub struct MewWallet {
    pub address: String,
    pub public_key: String,
    pub secret_key: String,
}

/// The text of a wallet's three fields.
#[verifier::ext_equal]
pub struct WalletView {
    pub address: Seq<char>,
    pub public_key: Seq<char>,
    pub secret_key: Seq<char>,
}

impl View for MewWallet {
    type V = WalletView;

    open spec fn view(&self) -> WalletView {
        WalletView {
            address: self.address@,
            public_key: self.public_key@,
            secret_key: self.secret_key@,
        }
    }
}

/// An address: `mew013` followed by the first 24 hexadecimal digits of the
/// public key.
pub open spec fn address_of(public_hex: Seq<char>) -> Seq<char> {
    "mew013"@ + public_hex.take(24)
}

/// The wallet with a public key, with `secret_text` as its secret key's
/// written form.
pub open spec fn wallet_with_public_key(public: Seq<u8>, secret_text: Seq<char>) -> WalletView {
    let public_hex = hex_lower(public);
    WalletView { address: address_of(public_hex), public_key: public_hex, secret_key: secret_text }
}

/// The wallet of a secret key, with `secret_text` as its written form.
pub open spec fn wallet_of(secret: Seq<u8>, secret_text: Seq<char>) -> WalletView {
    wallet_with_public_key(ed25519_public_key(secret), secret_text)
}

/// What importing the written secret key `text` gives: the wallet, or the
/// error text.
pub open spec fn import_outcome(text: Seq<char>) -> Result<WalletView, Seq<char>> {
    if !is_hex_text(text) {
        Err("Invalid hex"@)
    } else if hex_bytes(text).len() != 32 {
        Err("Invalid length"@)
    } else {
        Ok(wallet_of(hex_bytes(text), text))
    }
}

/// The bytes as a 32-byte secret key, if there are exactly 32 of them.
fn secret_key_array(bytes: &Vec<u8>) -> (key: Option<[u8; 32]>)
    ensures
        key is Some <==> bytes@.len() == 32,
        key matches Some(k) ==> k@ == bytes@,
{
    if bytes.len() != 32 {
        return None;
    }
    let mut key = [0u8; 32];
    let mut i: usize = 0;
    while i < 32
        invariant
            i <= 32,
            bytes@.len() == 32,
            key@.len() == 32,
            forall|j: int| 0 <= j < i ==> key@[j] == bytes@[j],
        decreases 32 - i,
    {
        key[i] = bytes[i];
        i = i + 1;
    }
    assert(key@ =~= bytes@);
    Some(key)
}

/// The address for a public key written in hexadecimal.
fn address_from_public_hex(public_hex: &String) -> (address: String)
    requires
        public_hex@.len() >= 24,
    ensures
        address@ == address_of(public_hex@),
        address@.len() == 30,
{
    proof {
        reveal_strlit("mew013");
    }
    let digits = public_hex.as_str().substring_char(0, 24);
    assert(address_of(public_hex@).len() == 30);
    String::from_str("mew013").concat(digits)
}

impl MewWallet {
    /// The wallet of a key pair, given its public key and its secret key's
    /// written form.
    pub fn with_public_key(public: &[u8; 32], secret_key: String) -> (wallet: MewWallet)
        ensures
            wallet@ == wallet_with_public_key(public@, secret_key@),
            wallet@.public_key.len() == 64,
            wallet@.address.len() == 30,
    {
        let public_key = encode_hex(public.as_slice());
        let address = address_from_public_hex(&public_key);
        MewWallet { address, public_key, secret_key }
    }

    /// The wallet of a 32-byte secret key, which is written in lower-case
    /// hexadecimal.
    pub fn from_secret_bytes(secret: &[u8; 32]) -> (wallet: MewWallet)
        ensures
            wallet@ == wallet_of(secret@, hex_lower(secret@)),
            wallet@.public_key.len() == 64,
            wallet@.secret_key.len() == 64,
            wallet@.address.len() == 30,
    {
        let public = public_key_of(secret);
        Self::with_public_key(&public, encode_hex(secret.as_slice()))
    }

    /// A new wallet with a random secret key.
    pub fn create_new() -> (wallet: MewWallet)
        ensures
            exists|secret: Seq<u8>|
                secret.len() == 32 && wallet@ == #[trigger] wallet_of(secret, hex_lower(secret)),
            wallet@.public_key.len() == 64,
            wallet@.secret_key.len() == 64,
            wallet@.address.len() == 30,
    {
        let secret = generate_secret_key();
        let wallet = Self::from_secret_bytes(&secret);
        assert(secret@.len() == 32);
        assert(wallet@ == wallet_of(secret@, hex_lower(secret@)));
        wallet
    }

    /// The wallet of a secret key written in hexadecimal (either case). It
    /// fails with `Invalid hex` where the text is not an even number of
    /// hexadecimal digits, and with `Invalid length` where it is not 32 bytes.
    pub fn import_from_secret(secret_hex: &str) -> (imported: Result<MewWallet, String>)
        ensures
            match imported {
                Ok(wallet) => import_outcome(secret_hex@) == Ok::<WalletView, Seq<char>>(wallet@),
                Err(message) => import_outcome(secret_hex@) == Err::<WalletView, Seq<char>>(
                    message@,
                ),
            },
            imported matches Ok(wallet) ==> wallet@.public_key.len() == 64 && wallet@.address.len()
                == 30,
    {
        let secret_bytes = match decode_hex(secret_hex) {
            Ok(bytes) => bytes,
            Err(_) => {
                return Err(String::from_str("Invalid hex"));
            },
        };
        let secret = match secret_key_array(&secret_bytes) {
            Some(key) => key,
            None => {
                return Err(String::from_str("Invalid length"));
            },
        };
        let public = public_key_of(&secret);
        let wallet = Self::with_public_key(&public, String::from_str(secret_hex));
        assert(wallet@ == wallet_of(hex_bytes(secret_hex@), secret_hex@));
        Ok(wallet)
    }
}

/// Importing the secret key of a new wallet gives that wallet back.
pub proof fn lemma_import_restores_new_wallet(secret: Seq<u8>)
    requires
        secret.len() == 32,
    ensures
        import_outcome(hex_lower(secret)) == Ok::<WalletView, Seq<char>>(
            wallet_of(secret, hex_lower(secret)),
        ),
{
    lemma_hex_lower_is_hex_text(secret);
    lemma_hex_round_trip(secret);
}

/// A secret key imports to the same address and public key whatever the case
/// of its hexadecimal letters, and is refused for the same reason.
pub proof fn lemma_import_ignores_case(text: Seq<char>)
    ensures
        import_outcome(ascii_lowercase(text)) is Ok == import_outcome(text) is Ok,
        import_outcome(text) is Err ==> import_outcome(ascii_lowercase(text)) == import_outcome(
            text,
        ),
        import_outcome(text) is Ok ==> {
            let lower = import_outcome(ascii_lowercase(text))->Ok_0;
            let given = import_outcome(text)->Ok_0;
            lower.address == given.address && lower.public_key == given.public_key
        },
{
    lemma_hex_ignores_case(text);
}


/// `c` is the lower-case hexadecimal digit for the nibble `v`.
pub open spec fn is_lower_hex_digit_for(c: char, v: int) -> bool {
    ||| 0 <= v < 10 && c as int == 48 + v
    ||| 10 <= v < 16 && c as int == 87 + v
}

/// A wallet writes its public key's bytes in their order, each as two
/// lower-case hexadecimal digits, high nibble first (byte `i` gives digits
/// `2i` and `2i + 1`); its address is `mew013` followed by the first 24 of
/// those digits; its secret key is the text it was given.
pub proof fn lemma_wallet_writes_public_key(public: Seq<u8>, secret_text: Seq<char>)
    ensures
        ({
            let w = wallet_with_public_key(public, secret_text);
            &&& w.public_key.len() == 2 * public.len()
            &&& forall|i: int|
                0 <= i < public.len() ==> {
                    &&& is_lower_hex_digit_for(#[trigger] w.public_key[2 * i], public[i] as int / 16)
                    &&& is_lower_hex_digit_for(w.public_key[2 * i + 1], public[i] as int % 16)
                }
            &&& w.secret_key == secret_text
            &&& public.len() >= 12 ==> {
                &&& w.address.len() == 30
                &&& forall|j: int| 0 <= j < 6 ==> #[trigger] w.address[j] == "mew013"@[j]
                &&& forall|j: int| 0 <= j < 24 ==> #[trigger] w.address[6 + j] == w.public_key[j]
            }
        }),
{
    reveal_strlit("mew013");
    let w = wallet_with_public_key(public, secret_text);
    assert forall|i: int| 0 <= i < public.len() implies {
        &&& is_lower_hex_digit_for(#[trigger] w.public_key[2 * i], public[i] as int / 16)
        &&& is_lower_hex_digit_for(w.public_key[2 * i + 1], public[i] as int % 16)
    } by {
        assert((2 * i) / 2 == i && (2 * i) % 2 == 0);
        assert((2 * i + 1) / 2 == i && (2 * i + 1) % 2 == 1);
    }
}


/// A secret key imports exactly when it is 64 hexadecimal digits (either
/// case); any other character or an odd length gives `Invalid hex`, and an
/// even number of digits other than 64 gives `Invalid length`.
pub proof fn lemma_import_accepts_64_hex_digits(text: Seq<char>)
    ensures
        ({
            let digits = forall|i: int|
                0 <= i < text.len() ==> {
                    ||| '0' <= #[trigger] text[i] && text[i] <= '9'
                    ||| 'a' <= text[i] && text[i] <= 'f'
                    ||| 'A' <= text[i] && text[i] <= 'F'
                };
            &&& import_outcome(text) is Ok <==> digits && text.len() == 64
            &&& !digits || text.len() % 2 == 1 ==> import_outcome(text) == Err::<WalletView, Seq<char>>(
                "Invalid hex"@,
            )
            &&& digits && text.len() % 2 == 0 && text.len() != 64 ==> import_outcome(text) == Err::<
                WalletView,
                Seq<char>,
            >("Invalid length"@)
            &&& import_outcome(text) is Ok ==> import_outcome(text)->Ok_0.secret_key == text
        }),
{
}

} // verus!
