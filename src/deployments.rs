//! The decisions of the deployment client: the local configuration file, the
//! bundler's command line and output, the upload form, and the order of the
//! steps, which never reaches the network before both bundles are made.
use vstd::prelude::*;
use vstd::string::*;
use crate::order::binding_pairs;

verus! {

/// Which remote function a project directory deploys to.
pub struct DeploymentConfig {
    pub function_id: String,
    pub organization_id: String,
}

/// The directory, relative to the project, that holds the configuration.
pub const CONFIG_DIR: &'static str = ".lagon";

/// The configuration file, relative to the project.
pub const CONFIG_PATH: &'static str = ".lagon/config.json";

/// The bundler that turns a source file into one module.
pub const BUNDLER: &'static str = "esbuild";

/// The request header that carries the tenant's token.
pub const TOKEN_HEADER: &'static str = "x-lagon-token";

/// Failures of the deployment client, each reported before anything is sent.
#[derive(Debug, PartialEq, Eq, Clone)]
pub enum DeployError {
    /// The bundler is not installed.
    BundlerMissing,
    /// The bundler exited with a failure status; it carries the status text.
    UnexpectedStatus(String),
    /// The bundler could not be started; it carries the system's reason.
    BundlerNotRun(String),
    /// The bundler's output is not UTF-8 text.
    InvalidOutput,
    /// No configuration file to remove.
    NoConfiguration,
    /// The client file's path names no file.
    InvalidClientPath,
    /// An event came that the current step does not wait for.
    OutOfOrder,
    /// The control plane could not be reached; it carries the reason.
    UploadTransport(String),
    /// The control plane refused the token; it carries the status text.
    Unauthorized(String),
    /// The control plane's answer could not be read; it carries the reason.
    MalformedResponse(String),
}

impl DeployError {
    /// The text shown to the operator.
    pub fn message(&self) -> (r: String)
        ensures
            self is BundlerMissing ==> r@
                == "esbuild is not installed. Please install it with `npm install -g esbuild`"@,
            self is NoConfiguration ==> r@ == "No configuration found in this directory."@,
            self is InvalidOutput ==> r@ == "Failed to convert output to string"@,
            self matches DeployError::UnexpectedStatus(s) ==> r@ == "Unexpected status code "@
                + s@,
            self matches DeployError::UploadTransport(s) ==> r@ == "Could not reach the server: "@
                + s@,
            self matches DeployError::Unauthorized(s) ==> r@
                == "The server refused the token: "@ + s@,
            self matches DeployError::MalformedResponse(s) ==> r@
                == "Unexpected answer from the server: "@ + s@,
            self matches DeployError::BundlerNotRun(s) ==> r@ == s@,
            self is InvalidClientPath ==> r@ == "The client file has no file name"@,
            self is OutOfOrder ==> r@ == "Deployment step out of order"@,
    {
        match self {
            DeployError::BundlerMissing => String::from_str(
                "esbuild is not installed. Please install it with `npm install -g esbuild`",
            ),
            DeployError::UnexpectedStatus(s) => {
                let mut m = String::from_str("Unexpected status code ");
                m.append(s.as_str());
                m
            },
            DeployError::BundlerNotRun(s) => s.clone(),
            DeployError::InvalidOutput => String::from_str("Failed to convert output to string"),
            DeployError::NoConfiguration => String::from_str(
                "No configuration found in this directory.",
            ),
            DeployError::InvalidClientPath => String::from_str("The client file has no file name"),
            DeployError::OutOfOrder => String::from_str("Deployment step out of order"),
            DeployError::UploadTransport(s) => {
                let mut m = String::from_str("Could not reach the server: ");
                m.append(s.as_str());
                m
            },
            DeployError::Unauthorized(s) => {
                let mut m = String::from_str("The server refused the token: ");
                m.append(s.as_str());
                m
            },
            DeployError::MalformedResponse(s) => {
                let mut m = String::from_str("Unexpected answer from the server: ");
                m.append(s.as_str());
                m
            },
        }
    }
}

/// Whether the configuration file can be removed: only where it exists.
pub fn check_config_removable(exists: bool) -> (r: Result<(), DeployError>)
    ensures
        r is Ok <==> exists,
        r is Err ==> r == Err::<(), DeployError>(DeployError::NoConfiguration),
{
    if exists {
        Ok(())
    } else {
        Err(DeployError::NoConfiguration)
    }
}

/// The bundler's arguments for `file`: one browser module in ES2020.
pub fn esbuild_args(file: &str) -> (r: Vec<String>)
    ensures
        r@.len() == 5,
        r@[0]@ == file@,
        r@[1]@ == "--bundle"@,
        r@[2]@ == "--format=esm"@,
        r@[3]@ == "--target=es2020"@,
        r@[4]@ == "--platform=browser"@,
{
    let mut args: Vec<String> = Vec::new();
    args.push(String::from_str(file));
    args.push(String::from_str("--bundle"));
    args.push(String::from_str("--format=esm"));
    args.push(String::from_str("--target=es2020"));
    args.push(String::from_str("--platform=browser"));
    args
}

/// The text that the bytes `b` spell in UTF-8, if they are UTF-8.
pub uninterp spec fn utf8_text(b: Seq<u8>) -> Option<Seq<char>>;

/// Relies on `String::from_utf8`: the text of the bytes, or an error when
/// they are not UTF-8.
#[verifier::external_body]
fn decode_utf8(bytes: Vec<u8>) -> (r: Option<String>)
    ensures
        r matches Some(s) ==> utf8_text(bytes@) == Some(s@),
        r is None ==> utf8_text(bytes@) is None,
{
    String::from_utf8(bytes).ok()
}

/// What one run of the bundler gives: its output text when it succeeded.
pub fn bundle_output(success: bool, status: &str, stdout: Vec<u8>) -> (r: Result<
    String,
    DeployError,
>)
    ensures
        !success ==> (r matches Err(DeployError::UnexpectedStatus(s)) && s@ == status@),
        success && utf8_text(stdout@) is None ==> r == Err::<String, DeployError>(
            DeployError::InvalidOutput,
        ),
        success && utf8_text(stdout@) is Some ==> (r matches Ok(t) && utf8_text(stdout@) == Some(
            t@,
        )),
{
    if !success {
        return Err(DeployError::UnexpectedStatus(String::from_str(status)));
    }
    match decode_utf8(stdout) {
        Some(text) => Ok(text),
        None => Err(DeployError::InvalidOutput),
    }
}

/// The last component of the path `p`, where it has one.
pub uninterp spec fn path_file_name(p: Seq<char>) -> Option<Seq<char>>;

/// Relies on `std::path::Path::file_name`: the final component of the path,
/// none where the path ends in `..` or is a root.
#[verifier::external_body]
fn file_name(path: &str) -> (r: Option<String>)
    ensures
        r matches Some(n) ==> path_file_name(path@) == Some(n@),
        r is None ==> path_file_name(path@) is None,
{
    std::path::Path::new(path).file_name().map(|n| n.to_string_lossy().into_owned())
}

/// The name under which the client bundle is uploaded: its file's name.
pub fn client_asset_name(path: &str) -> (r: Result<String, DeployError>)
    ensures
        r matches Ok(n) ==> path_file_name(path@) == Some(n@),
        r is Err ==> path_file_name(path@) is None && r == Err::<String, DeployError>(
            DeployError::InvalidClientPath,
        ),
{
    match file_name(path) {
        Some(n) => Ok(n),
        None => Err(DeployError::InvalidClientPath),
    }
}

/// The control plane's endpoint for new deployments.
pub fn deployment_endpoint(api_url: &str) -> (r: String)
    ensures
        r@ == api_url@ + "/deployment"@,
{
    let mut url = String::from_str(api_url);
    url.append("/deployment");
    url
}

/// Where a deployed function answers, given the name the control plane gave it.
pub fn function_url(function_name: &str) -> (r: String)
    ensures
        r@ == "https://"@ + function_name@ + ".lagon.app"@,
{
    let mut url = String::from_str("https://");
    url.append(function_name);
    url.append(".lagon.app");
    url
}

/// One part of the upload form.
pub struct FormPart {
    pub name: String,
    pub file_name: Option<String>,
    pub content_type: Option<String>,
    pub content: String,
}

pub struct FormPartView {
    pub name: Seq<char>,
    pub file_name: Option<Seq<char>>,
    pub content_type: Option<Seq<char>>,
    pub content: Seq<char>,
}

pub open spec fn opt_view(o: Option<String>) -> Option<Seq<char>> {
    match o {
        Some(s) => Some(s@),
        None => None,
    }
}

impl View for FormPart {
    type V = FormPartView;

    open spec fn view(&self) -> FormPartView {
        FormPartView {
            name: self.name@,
            file_name: opt_view(self.file_name),
            content_type: opt_view(self.content_type),
            content: self.content@,
        }
    }
}

/// The part that uploads one asset.
pub open spec fn asset_part(a: (Seq<char>, Seq<char>)) -> FormPartView {
    FormPartView { name: "assets"@, file_name: Some(a.0), content_type: None, content: a.1 }
}

/// The whole form: the function's id, its bundled code, then every asset.
pub open spec fn upload_form(
    function_id: Seq<char>,
    index: Seq<char>,
    assets: Seq<(Seq<char>, Seq<char>)>,
) -> Seq<FormPartView> {
    seq![
        FormPartView {
            name: "functionId"@,
            file_name: None,
            content_type: None,
            content: function_id,
        },
        FormPartView {
            name: "code"@,
            file_name: Some("index.js"@),
            content_type: Some("text/javascript"@),
            content: index,
        },
    ] + assets.map_values(|a: (Seq<char>, Seq<char>)| asset_part(a))
}

/// Relies on `mime::TEXT_JAVASCRIPT` and its `AsRef<str>`: the media type's
/// text.
#[verifier::external_body]
fn javascript_media_type() -> (r: String)
    ensures
        r@ == "text/javascript"@,
{
    String::from(mime::TEXT_JAVASCRIPT.as_ref())
}

/// Builds the upload form.
pub fn upload_parts(function_id: &str, index: &str, assets: &Vec<(String, String)>) -> (r: Vec<
    FormPart,
>)
    ensures
        r@.map_values(|p: FormPart| p@) == upload_form(function_id@, index@, binding_pairs(assets@)),
{
    let mut parts: Vec<FormPart> = Vec::new();
    parts.push(
        FormPart {
            name: String::from_str("functionId"),
            file_name: None,
            content_type: None,
            content: String::from_str(function_id),
        },
    );
    parts.push(
        FormPart {
            name: String::from_str("code"),
            file_name: Some(String::from_str("index.js")),
            content_type: Some(javascript_media_type()),
            content: String::from_str(index),
        },
    );
    let ghost form = upload_form(function_id@, index@, binding_pairs(assets@));
    let mut i: usize = 0;
    while i < assets.len()
        invariant
            form == upload_form(function_id@, index@, binding_pairs(assets@)),
            i <= assets.len(),
            parts@.len() == 2 + i,
            forall|j: int| 0 <= j < 2 + i ==> (#[trigger] parts@[j])@ == form[j],
        decreases assets.len() - i,
    {
        parts.push(
            FormPart {
                name: String::from_str("assets"),
                file_name: Some(assets[i].0.clone()),
                content_type: None,
                content: assets[i].1.clone(),
            },
        );
        i = i + 1;
    }
    assert(parts@.map_values(|p: FormPart| p@) =~= form);
    parts
}

/// What the control plane's answer to an upload means: the deployed
/// function's name, a refused token (401 or 403), or an answer that is not
/// a success carrying a name. `function_name` is the name read from the
/// answer's body, if one could be read.
pub fn upload_answer(status: u16, status_text: &str, function_name: Option<String>) -> (r: Result<
    String,
    DeployError,
>)
    ensures
        (status == 401 || status == 403) ==> (r matches Err(DeployError::Unauthorized(s))
            && s@ == status_text@),
        (status != 401 && status != 403 && (status < 200 || status >= 300)) ==> (r matches Err(
            DeployError::MalformedResponse(s),
        ) && s@ == status_text@),
        (200 <= status < 300 && function_name is None) ==> (r matches Err(
            DeployError::MalformedResponse(s),
        ) && s@ == status_text@),
        (200 <= status < 300 && function_name is Some) ==> (r matches Ok(n) && function_name
            == Some(n)),
{
    if status == 401 || status == 403 {
        return Err(DeployError::Unauthorized(String::from_str(status_text)));
    }
    if status < 200 || status >= 300 {
        return Err(DeployError::MalformedResponse(String::from_str(status_text)));
    }
    match function_name {
        Some(n) => Ok(n),
        None => Err(DeployError::MalformedResponse(String::from_str(status_text))),
    }
}

} // verus!
