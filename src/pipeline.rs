//! The order of a deployment's steps, as a machine from event to action: the
//! caller runs the bundler and the upload, and hands back what came of them.
use vstd::prelude::*;
use crate::order::binding_pairs;
use crate::deployments::{
    client_asset_name, function_url, path_file_name, upload_form, upload_parts,
    DeployError, FormPart,
};

verus! {

#[derive(Debug, PartialEq, Eq, Clone, Copy)]
pub enum DeployStage {
    /// Waiting to learn whether the bundler is installed.
    CheckingBundler,
    BundlingIndex,
    BundlingClient,
    Uploading,
    Deployed,
    Failed,
}

/// What the caller reports back.
pub enum DeployEvent {
    /// Whether the bundler answered.
    BundlerChecked(bool),
    /// The outcome of the bundling step asked for.
    Bundled(Result<String, DeployError>),
    /// The outcome of the upload: the function's name, or why it failed.
    Uploaded(Result<String, DeployError>),
}

/// What the caller does next.
pub enum DeployAction {
    /// Run the bundler on this file.
    Bundle(String),
    /// Send this form.
    Upload(Vec<FormPart>),
    /// Tell the operator where the function answers.
    Announce(String),
    /// Stop with this error.
    Abort(DeployError),
    /// The deployment has ended: nothing to do.
    Nothing,
}

/// A deployment under way.
pub struct Deployment {
    stage: DeployStage,
    function_id: String,
    index_path: String,
    client_path: Option<String>,
    index_code: String,
    assets: Vec<(String, String)>,
}

pub struct DeploymentView {
    pub stage: DeployStage,
    pub function_id: Seq<char>,
    pub index_path: Seq<char>,
    pub client_path: Option<Seq<char>>,
    pub index_code: Seq<char>,
    pub assets: Seq<(Seq<char>, Seq<char>)>,
}

impl View for Deployment {
    type V = DeploymentView;

    closed spec fn view(&self) -> DeploymentView {
        DeploymentView {
            stage: self.stage,
            function_id: self.function_id@,
            index_path: self.index_path@,
            client_path: match self.client_path {
                Some(p) => Some(p@),
                None => None,
            },
            index_code: self.index_code@,
            assets: binding_pairs(self.assets@),
        }
    }
}

/// The stage after `event` in stage `stage`, for a deployment with the
/// client file `client`.
pub open spec fn next_stage(
    stage: DeployStage,
    client: Option<Seq<char>>,
    event: DeployEvent,
) -> DeployStage {
    match (stage, event) {
        (DeployStage::Deployed, _) => DeployStage::Deployed,
        (DeployStage::Failed, _) => DeployStage::Failed,
        (DeployStage::CheckingBundler, DeployEvent::BundlerChecked(true)) => DeployStage::BundlingIndex,
        (DeployStage::BundlingIndex, DeployEvent::Bundled(Ok(_))) => match client {
            Some(_) => DeployStage::BundlingClient,
            None => DeployStage::Uploading,
        },
        (DeployStage::BundlingClient, DeployEvent::Bundled(Ok(_))) => match client {
            Some(p) => if path_file_name(p) is Some {
                DeployStage::Uploading
            } else {
                DeployStage::Failed
            },
            None => DeployStage::Failed,
        },
        (DeployStage::Uploading, DeployEvent::Uploaded(Ok(_))) => DeployStage::Deployed,
        _ => DeployStage::Failed,
    }
}

/// Whether stage `stage` waits for an event of the kind of `event`.
pub open spec fn step_expected(stage: DeployStage, event: DeployEvent) -> bool {
    match event {
        DeployEvent::BundlerChecked(_) => stage == DeployStage::CheckingBundler,
        DeployEvent::Bundled(_) => stage == DeployStage::BundlingIndex || stage
            == DeployStage::BundlingClient,
        DeployEvent::Uploaded(_) => stage == DeployStage::Uploading,
    }
}

/// Whether `event` reports a bundle that was made.
pub open spec fn is_bundle_made(event: DeployEvent) -> bool {
    event matches DeployEvent::Bundled(Ok(_))
}

pub open spec fn is_terminal(stage: DeployStage) -> bool {
    stage == DeployStage::Deployed || stage == DeployStage::Failed
}

impl Deployment {
    /// A deployment of `index_path`, with an optional client file, that first
    /// waits to learn whether the bundler is installed.
    pub fn new(function_id: String, index_path: String, client_path: Option<String>) -> (r:
        Deployment)
        ensures
            r@.stage == DeployStage::CheckingBundler,
            r@.function_id == function_id@,
            r@.index_path == index_path@,
            r@.client_path == match client_path {
                Some(p) => Some(p@),
                None => None::<Seq<char>>,
            },
            r@.assets.len() == 0,
            r@.index_code.len() == 0,
    {
        Deployment {
            stage: DeployStage::CheckingBundler,
            function_id,
            index_path,
            client_path,
            index_code: String::new(),
            assets: Vec::new(),
        }
    }

    pub fn stage(&self) -> (r: DeployStage)
        ensures
            r == self@.stage,
    {
        self.stage
    }

    fn fail(&mut self, e: DeployError) -> (r: DeployAction)
        ensures
            final(self)@ == (DeploymentView { stage: DeployStage::Failed, ..old(self)@ }),
            r == DeployAction::Abort(e),
    {
        self.stage = DeployStage::Failed;
        DeployAction::Abort(e)
    }

    /// Takes in what came of the last action and says what to do next.
    pub fn step(&mut self, event: DeployEvent) -> (r: DeployAction)
        ensures
            final(self)@.stage == next_stage(old(self)@.stage, old(self)@.client_path, event),
            final(self)@.function_id == old(self)@.function_id,
            final(self)@.index_path == old(self)@.index_path,
            final(self)@.client_path == old(self)@.client_path,
            is_terminal(old(self)@.stage) ==> r is Nothing && final(self)@ == old(self)@,
            r is Nothing ==> is_terminal(old(self)@.stage),
            r matches DeployAction::Bundle(p) ==> match final(self)@.stage {
                DeployStage::BundlingIndex => p@ == old(self)@.index_path,
                DeployStage::BundlingClient => old(self)@.client_path == Some(p@),
                _ => false,
            },
            r matches DeployAction::Upload(parts) ==> old(self)@.stage != DeployStage::Uploading
                && final(self)@.stage == DeployStage::Uploading && parts@.map_values(
                |p: FormPart| p@,
            ) == upload_form(
                final(self)@.function_id,
                final(self)@.index_code,
                final(self)@.assets,
            ),
            r matches DeployAction::Announce(u) ==> (old(self)@.stage == DeployStage::Uploading
                && (event matches DeployEvent::Uploaded(Ok(name)) && u@ == "https://"@ + name@
                + ".lagon.app"@)),
            r is Abort <==> final(self)@.stage == DeployStage::Failed && old(self)@.stage
                != DeployStage::Failed,
            (old(self)@.stage == DeployStage::CheckingBundler && (event matches DeployEvent::BundlerChecked(false)))
                ==> r == DeployAction::Abort(DeployError::BundlerMissing),
            final(self)@.stage == DeployStage::Uploading ==> (r is Upload || old(self)@.stage
                == DeployStage::Uploading),
            old(self)@.stage == DeployStage::BundlingIndex ==> (event matches DeployEvent::Bundled(
                Ok(code),
            ) ==> (final(self)@.index_code == code@ && final(self)@.assets == old(self)@.assets)),
            old(self)@.stage == DeployStage::BundlingClient ==> (event matches DeployEvent::Bundled(
                Ok(code),
            ) ==> (final(self)@.index_code == old(self)@.index_code && match old(
                self,
            )@.client_path {
                Some(p) => match path_file_name(p) {
                    Some(n) => final(self)@.assets == old(self)@.assets.push((n, code@)),
                    None => r == DeployAction::Abort(DeployError::InvalidClientPath),
                },
                None => r == DeployAction::Abort(DeployError::OutOfOrder),
            })),
            (old(self)@.stage == DeployStage::BundlingIndex || old(self)@.stage
                == DeployStage::BundlingClient) ==> (event matches DeployEvent::Bundled(Err(e))
                ==> r == DeployAction::Abort(e)),
            old(self)@.stage == DeployStage::Uploading ==> (event matches DeployEvent::Uploaded(
                Err(e),
            ) ==> r == DeployAction::Abort(e)),
            !(is_bundle_made(event) && (old(self)@.stage == DeployStage::BundlingIndex
                || old(self)@.stage == DeployStage::BundlingClient)) ==> (final(self)@.assets
                == old(self)@.assets && final(self)@.index_code == old(self)@.index_code),
            (!is_terminal(old(self)@.stage) && !step_expected(old(self)@.stage, event)) ==> r
                == DeployAction::Abort(DeployError::OutOfOrder),
    {
        match self.stage {
            DeployStage::Deployed | DeployStage::Failed => {
                return DeployAction::Nothing;
            },
            _ => {},
        }
        match event {
            DeployEvent::BundlerChecked(present) => {
                match self.stage {
                    DeployStage::CheckingBundler => {
                        if present {
                            self.stage = DeployStage::BundlingIndex;
                            DeployAction::Bundle(self.index_path.clone())
                        } else {
                            self.fail(DeployError::BundlerMissing)
                        }
                    },
                    _ => self.fail(DeployError::OutOfOrder),
                }
            },
            DeployEvent::Bundled(Err(e)) => {
                match self.stage {
                    DeployStage::BundlingIndex | DeployStage::BundlingClient => self.fail(e),
                    _ => self.fail(DeployError::OutOfOrder),
                }
            },
            DeployEvent::Bundled(Ok(code)) => {
                match self.stage {
                    DeployStage::BundlingIndex => {
                        self.index_code = code;
                        match &self.client_path {
                            Some(p) => {
                                let p = p.clone();
                                self.stage = DeployStage::BundlingClient;
                                DeployAction::Bundle(p)
                            },
                            None => {
                                self.stage = DeployStage::Uploading;
                                DeployAction::Upload(
                                    upload_parts(
                                        self.function_id.as_str(),
                                        self.index_code.as_str(),
                                        &self.assets,
                                    ),
                                )
                            },
                        }
                    },
                    DeployStage::BundlingClient => {
                        let name = match &self.client_path {
                            Some(p) => client_asset_name(p.as_str()),
                            None => Err(DeployError::OutOfOrder),
                        };
                        match name {
                            Ok(n) => {
                                self.assets.push((n, code));
                                proof {
                                    assert(binding_pairs(self.assets@) =~= binding_pairs(
                                        old(self).assets@,
                                    ).push((n@, code@)));
                                }
                                self.stage = DeployStage::Uploading;
                                DeployAction::Upload(
                                    upload_parts(
                                        self.function_id.as_str(),
                                        self.index_code.as_str(),
                                        &self.assets,
                                    ),
                                )
                            },
                            Err(e) => self.fail(e),
                        }
                    },
                    _ => self.fail(DeployError::OutOfOrder),
                }
            },
            DeployEvent::Uploaded(Ok(function_name)) => {
                match self.stage {
                    DeployStage::Uploading => {
                        self.stage = DeployStage::Deployed;
                        DeployAction::Announce(function_url(function_name.as_str()))
                    },
                    _ => self.fail(DeployError::OutOfOrder),
                }
            },
            DeployEvent::Uploaded(Err(e)) => {
                match self.stage {
                    DeployStage::Uploading => self.fail(e),
                    _ => self.fail(DeployError::OutOfOrder),
                }
            },
        }
    }
}

/// Where the bundler is missing, the deployment fails at once and stays
/// failed whatever is reported after, so no upload is ever asked for.
pub proof fn lemma_missing_bundler_never_uploads(client: Option<Seq<char>>, later: DeployEvent)
    ensures
        next_stage(DeployStage::CheckingBundler, client, DeployEvent::BundlerChecked(false))
            == DeployStage::Failed,
        next_stage(DeployStage::Failed, client, later) == DeployStage::Failed,
{
}

} // verus!
