//! Signing of HAP and App packages with `hap-sign-tool.jar`, configured
//! from environment variables that keep the signing material out of the
//! project's files.
use vstd::prelude::*;
use vstd::string::*;
use crate::path::{join_path, path_join};

verus! {

/// The signing configuration read from the environment.
#[derive(Debug)]
pub struct OhosSigningConfig {
    pub keystore_file: String,
    pub keystore_password: String,
    pub key_alias: String,
    pub key_password: String,
    pub app_cert_file: String,
    pub profile_file: String,
    pub sign_alg: String,
}

/// The value of an environment variable: unset, set to text, or set to
/// something that is not Unicode.
#[derive(Debug)]
pub enum EnvVar {
    Unset,
    Text(String),
    NotUnicode,
}

/// What the environment holds for signing. The three file variables are
/// read as paths (never refused for their encoding), with whether each
/// names an existing file.
#[derive(Debug)]
pub struct SigningEnv {
    pub keystore_file: Option<String>,
    pub keystore_password: EnvVar,
    pub key_alias: EnvVar,
    pub key_password: EnvVar,
    pub app_cert_file: Option<String>,
    pub profile_file: Option<String>,
    pub sign_alg: EnvVar,
    pub keystore_file_exists: bool,
    pub app_cert_file_exists: bool,
    pub profile_file_exists: bool,
}

/// Why signing could not be configured or failed.
#[derive(Debug)]
pub enum SigningError {
    /// The variable is set but its value is not Unicode.
    NotSet { var: String },
    /// The file that the variable names does not exist.
    FileMissing { var: String, path: String },
    /// `hap-sign-tool.jar` was found in none of the places searched; the
    /// first of them is given.
    ToolNotFound { searched: String },
    /// `hap-sign-tool.jar` exited with the given status.
    SignFailed { status: String },
    /// Signing reported success but wrote no file at `path`.
    OutputMissing { path: String },
    /// Some required variables are set but not all; the unset ones are
    /// named, in order.
    PartiallyConfigured { missing: Vec<&'static str> },
}

/// Whether an environment variable is set, whatever its value.
pub open spec fn is_set(v: EnvVar) -> bool {
    !(v is Unset)
}

/// Which of the six required variables are set, in the order
/// `OHOS_KEYSTORE_FILE`, `OHOS_KEYSTORE_PASSWORD`, `OHOS_KEY_ALIAS`,
/// `OHOS_KEY_PASSWORD`, `OHOS_APP_CERT_FILE`, `OHOS_PROFILE_FILE`.
pub open spec fn required_set(env: SigningEnv) -> Seq<bool> {
    seq![
        env.keystore_file is Some,
        is_set(env.keystore_password),
        is_set(env.key_alias),
        is_set(env.key_password),
        env.app_cert_file is Some,
        env.profile_file is Some,
    ]
}

/// The names of the six required variables, in order.
pub open spec fn required_names() -> Seq<Seq<char>> {
    seq![
        "OHOS_KEYSTORE_FILE"@,
        "OHOS_KEYSTORE_PASSWORD"@,
        "OHOS_KEY_ALIAS"@,
        "OHOS_KEY_PASSWORD"@,
        "OHOS_APP_CERT_FILE"@,
        "OHOS_PROFILE_FILE"@,
    ]
}

fn is_set_var(v: &EnvVar) -> (r: bool)
    ensures
        r == is_set(*v),
{
    match v {
        EnvVar::Unset => false,
        _ => true,
    }
}

/// The names of the required variables that are not set, in order; a
/// partial configuration lists them in its warning.
pub fn missing_signing_vars(env: &SigningEnv) -> (r: Vec<&'static str>)
    ensures
        r@.map_values(|s: &str| s@) == missing_of(required_set(*env)),
{
    let flags: [bool; 6] = [
        env.keystore_file.is_some(),
        is_set_var(&env.keystore_password),
        is_set_var(&env.key_alias),
        is_set_var(&env.key_password),
        env.app_cert_file.is_some(),
        env.profile_file.is_some(),
    ];
    let names: [&'static str; 6] = [
        "OHOS_KEYSTORE_FILE",
        "OHOS_KEYSTORE_PASSWORD",
        "OHOS_KEY_ALIAS",
        "OHOS_KEY_PASSWORD",
        "OHOS_APP_CERT_FILE",
        "OHOS_PROFILE_FILE",
    ];
    let ghost fl = required_set(*env);
    assert(flags@ =~= fl);
    assert(names@.map_values(|s: &str| s@) =~= required_names());
    let mut out: Vec<&'static str> = Vec::new();
    let mut i: usize = 0;
    while i < 6
        invariant
            flags@ == fl,
            names@.map_values(|s: &str| s@) == required_names(),
            fl.len() == 6,
            i <= 6,
            out@.map_values(|s: &str| s@) == missing_upto(fl, i as int),
        decreases 6 - i,
    {
        if !flags[i] {
            out.push(names[i]);
            assert(names@.map_values(|s: &str| s@)[i as int] == names@[i as int]@);
            assert(out@.map_values(|s: &str| s@) =~= missing_upto(fl, i as int).push(
                required_names()[i as int],
            ));
        }
        i = i + 1;
    }
    out
}

/// The names of the required variables among the first `n` that are unset.
pub open spec fn missing_upto(flags: Seq<bool>, n: int) -> Seq<Seq<char>>
    decreases n,
{
    if n <= 0 {
        seq![]
    } else if flags[n - 1] {
        missing_upto(flags, n - 1)
    } else {
        missing_upto(flags, n - 1).push(required_names()[n - 1])
    }
}

/// The names of the required variables that are unset.
pub open spec fn missing_of(flags: Seq<bool>) -> Seq<Seq<char>> {
    missing_upto(flags, 6)
}


/// The text of a variable read with `std::env::var`: its value, or none when
/// it is unset or not Unicode.
pub open spec fn var_text(v: EnvVar) -> Option<Seq<char>> {
    match v {
        EnvVar::Text(s) => Some(s@),
        _ => None,
    }
}

/// Whether `r` is what `from_env` owes for the environment: no
/// configuration when no required variable is set; an error naming the
/// unset ones when only some are; else
/// an error for the first password or alias that is not Unicode, then for
/// the first of the keystore, certificate and profile files that does not
/// exist; else the configuration, with `SHA256withECDSA` as the algorithm
/// when `OHOS_SIGN_ALG` is unset or not Unicode.
pub open spec fn from_env_outcome(env: SigningEnv, r: Result<Option<OhosSigningConfig>, SigningError>) -> bool {
    let flags = required_set(env);
    if missing_of(flags).len() == 6 {
        r == Ok::<Option<OhosSigningConfig>, SigningError>(None)
    } else if missing_of(flags).len() > 0 {
        r matches Err(SigningError::PartiallyConfigured { missing }) && missing@.map_values(
            |s: &str| s@,
        ) == missing_of(flags)
    } else if env.keystore_password is NotUnicode {
        r matches Err(SigningError::NotSet { var }) && var@ == "OHOS_KEYSTORE_PASSWORD"@
    } else if env.key_alias is NotUnicode {
        r matches Err(SigningError::NotSet { var }) && var@ == "OHOS_KEY_ALIAS"@
    } else if env.key_password is NotUnicode {
        r matches Err(SigningError::NotSet { var }) && var@ == "OHOS_KEY_PASSWORD"@
    } else if !env.keystore_file_exists {
        r matches Err(SigningError::FileMissing { var, path }) && var@ == "OHOS_KEYSTORE_FILE"@
            && path@ == env.keystore_file->0@
    } else if !env.app_cert_file_exists {
        r matches Err(SigningError::FileMissing { var, path }) && var@ == "OHOS_APP_CERT_FILE"@
            && path@ == env.app_cert_file->0@
    } else if !env.profile_file_exists {
        r matches Err(SigningError::FileMissing { var, path }) && var@ == "OHOS_PROFILE_FILE"@
            && path@ == env.profile_file->0@
    } else {
        r matches Ok(Some(c)) && c.keystore_file@ == env.keystore_file->0@ && Some(
            c.keystore_password@,
        ) == var_text(env.keystore_password) && Some(c.key_alias@) == var_text(env.key_alias)
            && Some(c.key_password@) == var_text(env.key_password) && c.app_cert_file@
            == env.app_cert_file->0@ && c.profile_file@ == env.profile_file->0@ && c.sign_alg@
            == match var_text(env.sign_alg) {
            Some(a) => a,
            None => "SHA256withECDSA"@,
        }
    }
}

fn text_of(v: EnvVar, name: &str) -> (r: Result<String, SigningError>)
    requires
        !(v is Unset),
    ensures
        v is NotUnicode ==> (r matches Err(SigningError::NotSet { var }) && var@ == name@),
        v is Text ==> (r matches Ok(s) && Some(s@) == var_text(v)),
{
    match v {
        EnvVar::Text(s) => Ok(s),
        _ => Err(SigningError::NotSet { var: name.to_owned() }),
    }
}

impl OhosSigningConfig {
    /// Reads the signing configuration from the environment: none when no
    /// required variable is set, an error naming the missing ones when only
    /// some are, and otherwise the configuration, provided the secrets are
    /// Unicode and the three files exist.
    pub fn from_env(env: SigningEnv) -> (r: Result<Option<OhosSigningConfig>, SigningError>)
        ensures
            from_env_outcome(env, r),
    {
        let missing = missing_signing_vars(&env);
        if missing.len() == 6 {
            return Ok(None);
        }
        if missing.len() > 0 {
            return Err(SigningError::PartiallyConfigured { missing });
        }
        let ghost e = env;
        proof {
            assert(required_set(e).len() == 6);
            lemma_none_missing(required_set(e));
        }
        let SigningEnv {
            keystore_file,
            keystore_password,
            key_alias,
            key_password,
            app_cert_file,
            profile_file,
            sign_alg,
            keystore_file_exists,
            app_cert_file_exists,
            profile_file_exists,
        } = env;
        let keystore_password = match text_of(keystore_password, "OHOS_KEYSTORE_PASSWORD") {
            Ok(s) => s,
            Err(err) => {
                return Err(err);
            },
        };
        let key_alias = match text_of(key_alias, "OHOS_KEY_ALIAS") {
            Ok(s) => s,
            Err(err) => {
                return Err(err);
            },
        };
        let key_password = match text_of(key_password, "OHOS_KEY_PASSWORD") {
            Ok(s) => s,
            Err(err) => {
                return Err(err);
            },
        };
        let keystore_file = match keystore_file {
            Some(p) => p,
            None => {
                return Ok(None);
            },
        };
        let app_cert_file = match app_cert_file {
            Some(p) => p,
            None => {
                return Ok(None);
            },
        };
        let profile_file = match profile_file {
            Some(p) => p,
            None => {
                return Ok(None);
            },
        };
        let sign_alg = match sign_alg {
            EnvVar::Text(a) => a,
            _ => "SHA256withECDSA".to_owned(),
        };
        if !keystore_file_exists {
            return Err(
                SigningError::FileMissing {
                    var: "OHOS_KEYSTORE_FILE".to_owned(),
                    path: keystore_file,
                },
            );
        }
        if !app_cert_file_exists {
            return Err(
                SigningError::FileMissing {
                    var: "OHOS_APP_CERT_FILE".to_owned(),
                    path: app_cert_file,
                },
            );
        }
        if !profile_file_exists {
            return Err(
                SigningError::FileMissing { var: "OHOS_PROFILE_FILE".to_owned(), path: profile_file },
            );
        }
        Ok(
            Some(
                OhosSigningConfig {
                    keystore_file,
                    keystore_password,
                    key_alias,
                    key_password,
                    app_cert_file,
                    profile_file,
                    sign_alg,
                },
            ),
        )
    }

    /// The arguments to `java` that sign `unsigned_hap` into `signed_hap`
    /// with the tool at `tool_path`.
    pub fn sign_hap_args(&self, tool_path: &str, unsigned_hap: &str, signed_hap: &str) -> (r: Vec<
        String,
    >)
        ensures
            r.deep_view() == sign_args(*self, tool_path@, unsigned_hap@, signed_hap@),
    {
        let mut v: Vec<String> = Vec::new();
        v.push("-jar".to_owned());
        v.push(tool_path.to_owned());
        v.push("sign-app".to_owned());
        v.push("-keyAlias".to_owned());
        v.push(self.key_alias.clone());
        v.push("-signAlg".to_owned());
        v.push(self.sign_alg.clone());
        v.push("-mode".to_owned());
        v.push("localSign".to_owned());
        v.push("-appCertFile".to_owned());
        v.push(self.app_cert_file.clone());
        v.push("-profileFile".to_owned());
        v.push(self.profile_file.clone());
        v.push("-inFile".to_owned());
        v.push(unsigned_hap.to_owned());
        v.push("-keystoreFile".to_owned());
        v.push(self.keystore_file.clone());
        v.push("-outFile".to_owned());
        v.push(signed_hap.to_owned());
        v.push("-keyPwd".to_owned());
        v.push(self.key_password.clone());
        v.push("-keystorePwd".to_owned());
        v.push(self.keystore_password.clone());
        assert(v.deep_view() =~= sign_args(*self, tool_path@, unsigned_hap@, signed_hap@));
        v
    }

    /// The verdict on a run of the signing tool: its exit status, whether it
    /// succeeded, and whether the signed file exists afterwards.
    pub fn sign_hap_result(success: bool, status: &str, signed_exists: bool, signed_hap: &str) -> (r:
        Result<(), SigningError>)
        ensures
            !success ==> (r matches Err(SigningError::SignFailed { status: s }) && s@ == status@),
            success && !signed_exists ==> (r matches Err(SigningError::OutputMissing { path })
                && path@ == signed_hap@),
            success && signed_exists ==> r is Ok,
    {
        if !success {
            return Err(SigningError::SignFailed { status: status.to_owned() });
        }
        if !signed_exists {
            return Err(SigningError::OutputMissing { path: signed_hap.to_owned() });
        }
        Ok(())
    }
}

/// The arguments to `java` for signing, in order.
pub open spec fn sign_args(
    c: OhosSigningConfig,
    tool: Seq<char>,
    unsigned: Seq<char>,
    signed: Seq<char>,
) -> Seq<Seq<char>> {
    seq![
        "-jar"@,
        tool,
        "sign-app"@,
        "-keyAlias"@,
        c.key_alias@,
        "-signAlg"@,
        c.sign_alg@,
        "-mode"@,
        "localSign"@,
        "-appCertFile"@,
        c.app_cert_file@,
        "-profileFile"@,
        c.profile_file@,
        "-inFile"@,
        unsigned,
        "-keystoreFile"@,
        c.keystore_file@,
        "-outFile"@,
        signed,
        "-keyPwd"@,
        c.key_password@,
        "-keystorePwd"@,
        c.keystore_password@,
    ]
}

proof fn lemma_none_missing(flags: Seq<bool>)
    requires
        flags.len() == 6,
        missing_of(flags).len() == 0,
    ensures
        forall|i: int| 0 <= i < 6 ==> flags[i],
{
    lemma_missing_upto_len(flags, 6);
}

proof fn lemma_missing_upto_len(flags: Seq<bool>, n: int)
    requires
        0 <= n <= flags.len(),
    ensures
        missing_upto(flags, n).len() == 0 ==> forall|i: int| 0 <= i < n ==> flags[i],
    decreases n,
{
    if n > 0 {
        lemma_missing_upto_len(flags, n - 1);
        if missing_upto(flags, n).len() == 0 {
            assert(flags[n - 1]);
        }
    }
}

/// The places searched for `hap-sign-tool.jar`: `lib` under the SDK's
/// toolchains, then `toolchains/lib` under `OHOS_SDK_HOME` when it is set.
pub open spec fn sign_tool_candidates(toolchains: Seq<char>, sdk_home: Option<Seq<char>>) -> Seq<
    Seq<char>,
> {
    let first = path_join(path_join(toolchains, "lib"@), "hap-sign-tool.jar"@);
    match sdk_home {
        Some(h) => seq![
            first,
            path_join(path_join(path_join(h, "toolchains"@), "lib"@), "hap-sign-tool.jar"@),
        ],
        None => seq![first],
    }
}

/// The places searched for `hap-sign-tool.jar`, in order.
pub fn sign_tool_paths(toolchains: &str, sdk_home: Option<&str>) -> (r: Vec<String>)
    ensures
        r.deep_view() == sign_tool_candidates(toolchains@, sdk_home.deep_view()),
{
    let lib = join_path(toolchains, "lib");
    let mut v: Vec<String> = Vec::new();
    v.push(join_path(lib.as_str(), "hap-sign-tool.jar"));
    if let Some(home) = sdk_home {
        let a = join_path(home, "toolchains");
        let b = join_path(a.as_str(), "lib");
        v.push(join_path(b.as_str(), "hap-sign-tool.jar"));
    }
    assert(v.deep_view() =~= sign_tool_candidates(toolchains@, sdk_home.deep_view()));
    v
}

/// Locates `hap-sign-tool.jar` among `sign_tool_candidates`, where
/// `exists[i]` tells whether candidate `i` exists; when none does, the error
/// names the first candidate.
pub fn find_sign_tool(toolchains: &str, sdk_home: Option<String>, exists: &Vec<bool>) -> (r: Result<
    String,
    SigningError,
>)
    ensures
        ({
            let c = sign_tool_candidates(toolchains@, sdk_home.deep_view());
            if exists@.len() > 0 && exists@[0] {
                r matches Ok(p) && p@ == c[0]
            } else if c.len() > 1 && exists@.len() > 1 && exists@[1] {
                r matches Ok(p) && p@ == c[1]
            } else {
                r matches Err(SigningError::ToolNotFound { searched }) && searched@ == c[0]
            }
        }),
{
    let lib = join_path(toolchains, "lib");
    let from_env = join_path(lib.as_str(), "hap-sign-tool.jar");
    if exists.len() > 0 && exists[0] {
        return Ok(from_env);
    }
    if let Some(home) = sdk_home {
        let a = join_path(home.as_str(), "toolchains");
        let b = join_path(a.as_str(), "lib");
        let from_sdk = join_path(b.as_str(), "hap-sign-tool.jar");
        if exists.len() > 1 && exists[1] {
            return Ok(from_sdk);
        }
    }
    Err(SigningError::ToolNotFound { searched: from_env })
}

/// Signing is configured only when all six required variables are set and
/// the three files exist: a configuration from `from_env` implies both.
pub proof fn lemma_signing_needs_every_variable(
    env: SigningEnv,
    r: Result<Option<OhosSigningConfig>, SigningError>,
)
    requires
        from_env_outcome(env, r),
        r matches Ok(Some(_)),
    ensures
        env.keystore_file is Some && is_set(env.keystore_password) && is_set(env.key_alias)
            && is_set(env.key_password) && env.app_cert_file is Some && env.profile_file is Some,
        env.keystore_file_exists && env.app_cert_file_exists && env.profile_file_exists,
{
    let flags = required_set(env);
    assert(flags.len() == 6);
    lemma_missing_upto_len(flags, 6);
    assert(flags[0] && flags[1] && flags[2] && flags[3] && flags[4] && flags[5]);
}

} // verus!
