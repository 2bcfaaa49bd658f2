use tauri_ohos::signing::{find_sign_tool, missing_signing_vars, EnvVar, OhosSigningConfig, SigningEnv, SigningError};

fn text(s: &str) -> EnvVar {
    EnvVar::Text(s.to_string())
}

fn full_env() -> SigningEnv {
    SigningEnv {
        keystore_file: Some("/k/ks.p12".to_string()),
        keystore_password: text("kspw"),
        key_alias: text("alias"),
        key_password: text("kpw"),
        app_cert_file: Some("/k/app.cer".to_string()),
        profile_file: Some("/k/app.p7b".to_string()),
        sign_alg: EnvVar::Unset,
        keystore_file_exists: true,
        app_cert_file_exists: true,
        profile_file_exists: true,
    }
}

#[test]
fn no_signing_without_variables() {
    let env = SigningEnv {
        keystore_file: None,
        keystore_password: EnvVar::Unset,
        key_alias: EnvVar::Unset,
        key_password: EnvVar::Unset,
        app_cert_file: None,
        profile_file: None,
        sign_alg: EnvVar::Unset,
        keystore_file_exists: false,
        app_cert_file_exists: false,
        profile_file_exists: false,
    };
    assert_eq!(missing_signing_vars(&env).len(), 6);
    assert!(matches!(OhosSigningConfig::from_env(env), Ok(None)));
}

#[test]
fn partial_signing_variables_are_named() {
    let mut env = full_env();
    env.key_alias = EnvVar::Unset;
    env.profile_file = None;
    assert_eq!(missing_signing_vars(&env), vec!["OHOS_KEY_ALIAS", "OHOS_PROFILE_FILE"]);
    match OhosSigningConfig::from_env(env) {
        Err(SigningError::PartiallyConfigured { missing }) => {
            assert_eq!(missing, vec!["OHOS_KEY_ALIAS", "OHOS_PROFILE_FILE"]);
        }
        _ => panic!("expected PartiallyConfigured"),
    }
}

#[test]
fn complete_signing_configuration_is_read() {
    let c = OhosSigningConfig::from_env(full_env()).unwrap().unwrap();
    assert_eq!(c.keystore_file, "/k/ks.p12");
    assert_eq!(c.keystore_password, "kspw");
    assert_eq!(c.key_alias, "alias");
    assert_eq!(c.key_password, "kpw");
    assert_eq!(c.sign_alg, "SHA256withECDSA");
    let mut env = full_env();
    env.sign_alg = text("SHA384withECDSA");
    let c = OhosSigningConfig::from_env(env).unwrap().unwrap();
    assert_eq!(c.sign_alg, "SHA384withECDSA");
}

#[test]
fn signing_errors_name_the_variable() {
    let mut env = full_env();
    env.key_alias = EnvVar::NotUnicode;
    match OhosSigningConfig::from_env(env) {
        Err(SigningError::NotSet { var }) => assert_eq!(var, "OHOS_KEY_ALIAS"),
        _ => panic!("expected NotSet"),
    }
    let mut env = full_env();
    env.app_cert_file_exists = false;
    match OhosSigningConfig::from_env(env) {
        Err(SigningError::FileMissing { var, path }) => {
            assert_eq!(var, "OHOS_APP_CERT_FILE");
            assert_eq!(path, "/k/app.cer");
        }
        _ => panic!("expected FileMissing"),
    }
}

#[test]
fn sign_arguments_and_results() {
    let c = OhosSigningConfig::from_env(full_env()).unwrap().unwrap();
    let args = c.sign_hap_args("/sdk/lib/hap-sign-tool.jar", "/o/app-unsigned.hap", "/o/app-signed.hap");
    assert_eq!(
        args,
        vec![
            "-jar", "/sdk/lib/hap-sign-tool.jar", "sign-app", "-keyAlias", "alias", "-signAlg",
            "SHA256withECDSA", "-mode", "localSign", "-appCertFile", "/k/app.cer", "-profileFile",
            "/k/app.p7b", "-inFile", "/o/app-unsigned.hap", "-keystoreFile", "/k/ks.p12", "-outFile",
            "/o/app-signed.hap", "-keyPwd", "kpw", "-keystorePwd", "kspw",
        ]
    );
    assert!(OhosSigningConfig::sign_hap_result(true, "0", true, "/o/s.hap").is_ok());
    match OhosSigningConfig::sign_hap_result(false, "exit status: 1", false, "/o/s.hap") {
        Err(SigningError::SignFailed { status }) => assert_eq!(status, "exit status: 1"),
        _ => panic!("expected SignFailed"),
    }
    match OhosSigningConfig::sign_hap_result(true, "0", false, "/o/s.hap") {
        Err(SigningError::OutputMissing { path }) => assert_eq!(path, "/o/s.hap"),
        _ => panic!("expected OutputMissing"),
    }
}

#[test]
fn sign_tool_is_searched_in_order() {
    assert_eq!(
        find_sign_tool("/tc", Some("/sdk".to_string()), &vec![true, true]).unwrap(),
        "/tc/lib/hap-sign-tool.jar"
    );
    assert_eq!(
        find_sign_tool("/tc", Some("/sdk".to_string()), &vec![false, true]).unwrap(),
        "/sdk/toolchains/lib/hap-sign-tool.jar"
    );
    match find_sign_tool("/tc", None, &vec![false, true]) {
        Err(SigningError::ToolNotFound { searched }) => assert_eq!(searched, "/tc/lib/hap-sign-tool.jar"),
        _ => panic!("expected ToolNotFound"),
    }
}
