use serverbox::credentials::{
    change_master_password, decrypt_file, normalize_secret, reset, validate_password,
    CredentialStore, NOTHING_TO_CHANGE, PASSWORD_TOO_SHORT, UNDECODABLE, VAULT_LOCKED,
    VAULT_MISSING,
};
use serverbox::models::CredentialStatus;
use serverbox::vault::{
    derive_key, open_parts, parse_file, seal, vault_failure, vault_staging_name, VaultStage,
    FILE_MAGIC, NONCE_LENGTH, SALT_LENGTH, VAULT_DAMAGED,
};

const PASSWORD: &str = "correct horse";

fn unlocked() -> CredentialStore {
    let mut store = CredentialStore::open();
    store.unlock_with(PASSWORD, None, vec![7u8; SALT_LENGTH]).unwrap();
    store
}

#[test]
fn keys_depend_on_password_and_salt() {
    let salt = [1u8; SALT_LENGTH];
    let key = derive_key(PASSWORD, &salt).unwrap();
    assert_eq!(key.len(), 32);
    assert_eq!(derive_key(PASSWORD, &salt).unwrap(), key);
    assert_ne!(derive_key(PASSWORD, &[2u8; SALT_LENGTH]).unwrap(), key);
    assert!(derive_key(PASSWORD, &[1u8; 4]).is_err());
}

#[test]
fn keys_depend_on_every_letter() {
    let salt = [1u8; SALT_LENGTH];
    assert_ne!(derive_key("correct horsf", &salt).unwrap(), derive_key(PASSWORD, &salt).unwrap());
}

#[test]
fn sealed_files_read_back() {
    let key = [3u8; 32];
    let salt = [4u8; SALT_LENGTH];
    let nonce = [5u8; NONCE_LENGTH];
    let file = seal(&key, &salt, &nonce, b"secret").unwrap();
    assert!(file.starts_with(b"SERVERBOX-CREDENTIALS\x01"));
    assert_eq!(file.len(), FILE_MAGIC.len() + 1 + SALT_LENGTH + NONCE_LENGTH + 6 + 16);
    let parts = parse_file(&file).unwrap();
    assert_eq!((parts.salt.as_slice(), parts.nonce.as_slice()), (&salt[..], &nonce[..]));
    assert!(!parts.ciphertext.starts_with(b"secret"));
    assert_eq!(open_parts(&parts, &key), Ok(b"secret".to_vec()));
    assert_eq!(open_parts(&parts, &[9u8; 32]), Err(VAULT_DAMAGED.to_string()));
    let mut broken = parse_file(&file).unwrap();
    broken.ciphertext[0] ^= 1;
    assert_eq!(open_parts(&broken, &key), Err(VAULT_DAMAGED.to_string()));
    assert!(VAULT_DAMAGED.starts_with("MASTER_PASSWORD_INVALID: "));
}

#[test]
fn other_files_are_refused() {
    let format = Err("The encrypted credential vault has an unsupported format.".to_string());
    assert_eq!(parse_file(b"").map(|_| ()), format);
    assert_eq!(parse_file(&[0u8; 200]).map(|_| ()), format);
    let mut file = FILE_MAGIC.as_bytes().to_vec();
    file.push(2);
    file.extend_from_slice(&[0u8; 28]);
    assert_eq!(parse_file(&file).map(|_| ()), format);
    file.push(0);
    assert_eq!(
        parse_file(&file).map(|_| ()),
        Err("The encrypted credential vault has an unsupported version.".to_string())
    );
}

#[test]
fn the_vault_is_written_under_another_name() {
    assert_eq!(vault_staging_name("serverbox.credentials", "ID"), ".serverbox.credentials.ID.tmp");
    assert_eq!(
        vault_failure(VaultStage::Create, "x"),
        "Could not create the encrypted credential vault: x"
    );
    assert_eq!(vault_failure(VaultStage::Write, "x"), "Could not write the encrypted credential vault: x");
    assert_eq!(vault_failure(VaultStage::Flush, "x"), "Could not flush the encrypted credential vault: x");
    assert_eq!(
        vault_failure(VaultStage::Replace, "x"),
        "Could not replace the encrypted credential vault: x"
    );
    assert_eq!(
        vault_failure(VaultStage::Finalize, "x"),
        "Could not finalize the encrypted credential vault: x"
    );
}

#[test]
fn master_passwords_have_a_least_length() {
    assert_eq!(validate_password("1234567"), Err(PASSWORD_TOO_SHORT.to_string()));
    assert_eq!(validate_password("12345678"), Ok(()));
    assert_eq!(validate_password("\u{e9}\u{e9}\u{e9}\u{e9}"), Err(PASSWORD_TOO_SHORT.to_string()));
    assert_eq!(PASSWORD_TOO_SHORT, "A master password must be at least 8 characters long.");
    assert_eq!(normalize_secret(Some("")), None);
    assert_eq!(normalize_secret(Some("x")), Some("x".to_string()));
    assert_eq!(normalize_secret(None), None);
}

#[test]
fn locked_vaults_ask_for_the_password() {
    let mut store = CredentialStore::open();
    assert_eq!(store.status(true), CredentialStatus { configured: true, unlocked: false });
    assert_eq!(store.ensure_unlocked(true), Err(VAULT_LOCKED.to_string()));
    assert_eq!(store.ensure_unlocked(false), Err(VAULT_MISSING.to_string()));
    assert_eq!(VAULT_LOCKED, "MASTER_PASSWORD_REQUIRED: Unlock the credential vault to continue.");
    assert_eq!(store.get(true, "s", "password"), Err(VAULT_LOCKED.to_string()));
    assert_eq!(store.get(false, "s", "password"), Ok(None));
    assert!(store.update_server(true, "s", true, None, None, None).is_err());
    assert_eq!(store.unlock("short", None), Err(PASSWORD_TOO_SHORT.to_string()));
    assert_eq!(store.remove_server(false, "s").map(|write| write.is_none()), Ok(true));
    assert!(store.remove_server(true, "s").is_err());
}

#[test]
fn stored_secrets_are_given_back() {
    let mut store = unlocked();
    assert_eq!(store.ensure_unlocked(false), Ok(()));
    let write = store.update_server(false, "s", true, Some("pw"), Some(""), None).unwrap();
    assert_eq!(store.get(true, "s", "password"), Ok(Some("pw".to_string())));
    assert_eq!(store.get(true, "s", "key-passphrase"), Ok(None));
    assert_eq!(store.get(true, "s", "other"), Err("Unknown credential type".to_string()));
    assert_eq!(store.get(true, "t", "other"), Ok(None));
    let mut other = CredentialStore::open();
    assert_eq!(
        other.unlock(PASSWORD, Some(&write.file)),
        Ok(CredentialStatus { configured: true, unlocked: true })
    );
    assert_eq!(other.get(true, "s", "password"), Ok(Some("pw".to_string())));
}

#[test]
fn wrong_passwords_unlock_nothing() {
    let file = sealed_vault();
    let mut store = CredentialStore::open();
    assert_eq!(store.unlock("wrong horse", Some(&file)), Err(VAULT_DAMAGED.to_string()));
    assert_eq!(store.get(true, "s", "password"), Err(VAULT_LOCKED.to_string()));
}

#[test]
fn updates_leave_what_they_do_not_name() {
    let mut store = unlocked();
    store.update_server(false, "s", true, Some("pw"), Some("phrase"), Some("sudo")).unwrap();
    store.update_server(true, "t", true, Some("other"), None, None).unwrap();
    store.update_server(true, "s", false, None, Some(""), None).unwrap();
    assert_eq!(store.get(true, "s", "password"), Ok(Some("pw".to_string())));
    assert_eq!(store.get(true, "s", "key-passphrase"), Ok(None));
    assert_eq!(store.get(true, "s", "sudo-password"), Ok(Some("sudo".to_string())));
    let write = store.remove_server(true, "s").unwrap().unwrap();
    assert_eq!(store.get(true, "s", "password"), Ok(None));
    assert_eq!(store.get(true, "t", "password"), Ok(Some("other".to_string())));
    store.rollback(write);
    assert_eq!(store.get(true, "s", "password"), Ok(Some("pw".to_string())));
}

fn sealed_vault() -> Vec<u8> {
    let mut store = unlocked();
    store.update_server(false, "s", true, Some("pw"), None, None).unwrap().file
}

#[test]
fn master_passwords_are_changed() {
    let file = sealed_vault();
    let rekeyed = change_master_password(PASSWORD, "another one", Some(&file)).unwrap();
    assert!(decrypt_file(&rekeyed.file, "another one").is_ok());
    let mut store = CredentialStore::open();
    assert_eq!(store.adopt(rekeyed), CredentialStatus { configured: true, unlocked: true });
    assert_eq!(store.get(true, "s", "password"), Ok(Some("pw".to_string())));
}

#[test]
fn master_passwords_are_checked_before_a_change() {
    let file = sealed_vault();
    assert_eq!(
        change_master_password(PASSWORD, "another one", None).map(|_| ()),
        Err(NOTHING_TO_CHANGE.to_string())
    );
    assert_eq!(
        change_master_password(PASSWORD, "short", None).map(|_| ()),
        Err(PASSWORD_TOO_SHORT.to_string())
    );
    assert_eq!(
        change_master_password(PASSWORD, "short", Some(&file)).map(|_| ()),
        Err(PASSWORD_TOO_SHORT.to_string())
    );
    assert_eq!(
        change_master_password("wrong horse", "another one", Some(&file)).map(|_| ()),
        Err(VAULT_DAMAGED.to_string())
    );
}

#[test]
fn vaults_are_reset_with_their_password() {
    let file = sealed_vault();
    assert_eq!(reset("wrong horse", Some(&file)), Err(VAULT_DAMAGED.to_string()));
    assert_eq!(reset(PASSWORD, Some(&file)), Ok(true));
    assert_eq!(reset(PASSWORD, None), Ok(false));
    let mut store = unlocked();
    store.clear();
    assert_eq!(store.status(false), CredentialStatus { configured: false, unlocked: false });
}

#[test]
fn secrets_are_given_up() {
    let file = sealed_vault();
    let mut opened = decrypt_file(&file, PASSWORD).unwrap();
    assert_eq!(opened.key.len(), 32);
    assert!(opened.servers.get("s").is_some());
    opened.wipe();
    assert!(opened.key.is_empty());
    assert!(opened.servers.get("s").is_none());
    assert_eq!(opened.salt, vec![7u8; SALT_LENGTH]);
    let mut rekeyed = change_master_password(PASSWORD, "another one", Some(&file)).unwrap();
    let written = rekeyed.file.clone();
    rekeyed.wipe();
    assert!(rekeyed.key.is_empty());
    assert!(rekeyed.servers.get("s").is_none());
    assert_eq!(rekeyed.file, written);
    let mut store = unlocked();
    store.update_server(false, "s", true, Some("pw"), None, None).unwrap();
    let mut pending = store.remove_server(true, "s").unwrap().unwrap();
    assert!(pending.previous.get("s").is_some());
    pending.wipe();
    assert!(pending.previous.get("s").is_none());
    store.update_server(true, "s", true, Some("pw"), None, None).unwrap();
    store.clear();
    assert_eq!(store.get(true, "s", "password"), Err(VAULT_LOCKED.to_string()));
}

#[test]
fn a_changed_password_shuts_out_the_old_one() {
    let file = sealed_vault();
    let rekeyed = change_master_password(PASSWORD, "another one", Some(&file)).unwrap();
    assert!(decrypt_file(&rekeyed.file, PASSWORD).is_err());
}

#[test]
fn documents_may_be_lists() {
    let salt = [3u8; SALT_LENGTH];
    let key = derive_key(PASSWORD, &salt).unwrap();
    let nonce = [4u8; NONCE_LENGTH];
    let file = seal(&key, &salt, &nonce, b"[{\"s\":[\"pw\",null,\"su\"]}]").unwrap();
    let mut store = CredentialStore::open();
    assert!(store.unlock(PASSWORD, Some(&file)).is_ok());
    assert_eq!(store.get(true, "s", "password"), Ok(Some("pw".to_string())));
    assert_eq!(store.get(true, "s", "key-passphrase"), Ok(None));
    assert_eq!(store.get(true, "s", "sudo-password"), Ok(Some("su".to_string())));
    let short = seal(&key, &salt, &nonce, b"[{\"s\":[\"pw\",null]}]").unwrap();
    assert!(decrypt_file(&short, PASSWORD).is_err());
}

#[test]
fn documents_are_utf8() {
    let salt = [3u8; SALT_LENGTH];
    let key = derive_key(PASSWORD, &salt).unwrap();
    let nonce = [4u8; NONCE_LENGTH];
    let accents = "{\"servers\":{\"s\":{\"password\":\"p\u{e9}\"}}}";
    let file = seal(&key, &salt, &nonce, accents.as_bytes()).unwrap();
    let mut store = CredentialStore::open();
    assert!(store.unlock(PASSWORD, Some(&file)).is_ok());
    assert_eq!(store.get(true, "s", "password"), Ok(Some("p\u{e9}".to_string())));
    let broken = b"{\"servers\":{\"s\":{\"password\":\"\xff\"}}}";
    let file = seal(&key, &salt, &nonce, broken).unwrap();
    assert_eq!(decrypt_file(&file, PASSWORD).map(|_| ()), Err(UNDECODABLE.to_string()));
}

#[test]
fn a_first_password_makes_a_vault() {
    let mut store = CredentialStore::open();
    assert_eq!(
        store.unlock(PASSWORD, None),
        Ok(CredentialStatus { configured: false, unlocked: true })
    );
    assert_eq!(store.get(false, "s", "password"), Ok(None));
    assert_eq!(store.salt.as_ref().map(|salt| salt.len()), Some(SALT_LENGTH));
}
