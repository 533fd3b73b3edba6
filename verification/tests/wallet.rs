use mewchain::wallet::MewWallet;

const SECRET_1: &str = "9d61b19deffd5a60ba844af492ec2cc44449c5697b326919703bac031cae7f60";
const PUBLIC_1: &str = "d75a980182b10ab7d54bfed3c964073a0ee172f3daa62325af021a68f707511a";
const SECRET_2: &str = "4ccd089b28ff96da9db6c346ec114e0f5b8a319f35aba624da8cf6ed4fb8a6fb";
const PUBLIC_2: &str = "3d4017c3e843895a92b70aa74d1b7ebc9c982ccf2ec4968cc0cd55f12af4660c";

fn bytes_of(hex_text: &str) -> [u8; 32] {
    let mut out = [0u8; 32];
    for i in 0..32 {
        out[i] = u8::from_str_radix(&hex_text[2 * i..2 * i + 2], 16).unwrap();
    }
    out
}

#[test]
fn wallet_from_rfc8032_secret() {
    let wallet = MewWallet::from_secret_bytes(&bytes_of(SECRET_1));
    assert_eq!(wallet.public_key, PUBLIC_1);
    assert_eq!(wallet.secret_key, SECRET_1);
    assert_eq!(wallet.address, "mew013d75a980182b10ab7d54bfed3");
}

#[test]
fn wallet_from_second_rfc8032_secret() {
    let wallet = MewWallet::from_secret_bytes(&bytes_of(SECRET_2));
    assert_eq!(wallet.public_key, PUBLIC_2);
    assert_eq!(wallet.address, "mew0133d4017c3e843895a92b70aa7");
}

#[test]
fn import_lower_case_secret() {
    let wallet = MewWallet::import_from_secret(SECRET_1).unwrap();
    assert_eq!(wallet.public_key, PUBLIC_1);
    assert_eq!(wallet.address, "mew013d75a980182b10ab7d54bfed3");
    assert_eq!(wallet.secret_key, SECRET_1);
}

#[test]
fn import_keeps_the_written_secret_and_ignores_case() {
    let upper = SECRET_1.to_uppercase();
    let wallet = MewWallet::import_from_secret(&upper).unwrap();
    assert_eq!(wallet.public_key, PUBLIC_1);
    assert_eq!(wallet.address, "mew013d75a980182b10ab7d54bfed3");
    assert_eq!(wallet.secret_key, upper);
}

#[test]
fn import_rejects_non_hex() {
    assert_eq!(MewWallet::import_from_secret("xyz1").unwrap_err(), "Invalid hex");
    assert_eq!(MewWallet::import_from_secret("abc").unwrap_err(), "Invalid hex");
    assert_eq!(MewWallet::import_from_secret("éé").unwrap_err(), "Invalid hex");
    let mut almost = SECRET_1.to_string();
    almost.replace_range(10..11, "g");
    assert_eq!(MewWallet::import_from_secret(&almost).unwrap_err(), "Invalid hex");
}

#[test]
fn import_rejects_wrong_length() {
    assert_eq!(MewWallet::import_from_secret("").unwrap_err(), "Invalid length");
    assert_eq!(MewWallet::import_from_secret("abcd").unwrap_err(), "Invalid length");
    let longer = format!("{}00", SECRET_1);
    assert_eq!(MewWallet::import_from_secret(&longer).unwrap_err(), "Invalid length");
}

#[test]
fn new_wallet_imports_back() {
    let wallet = MewWallet::create_new();
    assert_eq!(wallet.address.len(), 30);
    assert!(wallet.address.starts_with("mew013"));
    assert_eq!(&wallet.address[6..], &wallet.public_key[..24]);
    assert_eq!(wallet.secret_key.len(), 64);
    let again = MewWallet::import_from_secret(&wallet.secret_key).unwrap();
    assert_eq!(again.address, wallet.address);
    assert_eq!(again.public_key, wallet.public_key);
    assert_eq!(again.secret_key, wallet.secret_key);
}

#[test]
fn new_wallets_differ() {
    let a = MewWallet::create_new();
    let b = MewWallet::create_new();
    assert_ne!(a.secret_key, b.secret_key);
}

#[test]
fn wallet_with_given_public_key() {
    let mut public = [0u8; 32];
    for (i, b) in public.iter_mut().enumerate() {
        *b = (i as u8) * 8 + 1;
    }
    let wallet = MewWallet::with_public_key(&public, "secret text".to_string());
    assert_eq!(
        wallet.public_key,
        "0109111921293139414951596169717981899199a1a9b1b9c1c9d1d9e1e9f1f9"
    );
    assert_eq!(wallet.address, "mew013010911192129313941495159");
    assert_eq!(wallet.secret_key, "secret text");
}

#[test]
fn new_wallet_keys_have_64_digits() {
    let wallet = MewWallet::create_new();
    assert_eq!(wallet.public_key.len(), 64);
    assert!(wallet.public_key.chars().all(|c| c.is_ascii_hexdigit() && !c.is_ascii_uppercase()));
}
