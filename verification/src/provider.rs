//! The registry of providers: who is asked, and under which URL.

use vstd::prelude::*;
use vstd::string::StringExecFns;
use crate::error::{AppError, AppErrorView};

verus! {

/// An upstream endpoint that is asked for its chain head.
#[derive(Debug, PartialEq, Eq)]
pub struct Provider {
    pub name: String,
    pub url: String,
}

/// The mathematical content of a [`Provider`].
pub struct ProviderView {
    pub name: Seq<char>,
    pub url: Seq<char>,
}

impl View for Provider {
    type V = ProviderView;

    open spec fn view(&self) -> ProviderView {
        ProviderView { name: self.name@, url: self.url@ }
    }
}

impl Clone for Provider {
    fn clone(&self) -> (copy: Provider)
        ensures
            copy@ == self@,
    {
        Provider { name: self.name.clone(), url: self.url.clone() }
    }
}

/// The views of a list of providers, in the same order.
pub open spec fn provider_views(providers: Seq<Provider>) -> Seq<ProviderView> {
    Seq::new(providers.len(), |i: int| providers[i]@)
}

/// The name of the setting that supplies the Infura access key.
pub open spec fn infura_key_variable() -> Seq<char> {
    "INFURA_KEY"@
}

/// The URL under which Infura is reached with the access key `key`.
pub open spec fn infura_url(key: Seq<char>) -> Seq<char> {
    "https://sepolia.infura.io/v3/"@ + key
}

/// The Infura provider as configured with the access key `key`.
pub open spec fn infura(key: Seq<char>) -> ProviderView {
    ProviderView { name: "infura"@, url: infura_url(key) }
}

/// The Bordel provider, which needs no configuration.
pub open spec fn bordel() -> ProviderView {
    ProviderView { name: "bordel"@, url: "https://rpc.bordel.wtf/sepolia"@ }
}

/// The providers that are queried, in registration order.
pub open spec fn registered(key: Seq<char>) -> Seq<ProviderView> {
    seq![infura(key), bordel()]
}

impl Provider {
    /// The Infura provider. The access key becomes the last segment of the
    /// URL's path, unchanged.
    pub fn infura(key: &str) -> (provider: Provider)
        ensures
            provider@ == infura(key@),
    {
        let mut url = String::from_str("https://sepolia.infura.io/v3/");
        url.append(key);
        Provider { name: String::from_str("infura"), url }
    }

    /// The Bordel provider.
    pub fn bordel() -> (provider: Provider)
        ensures
            provider@ == bordel(),
    {
        Provider {
            name: String::from_str("bordel"),
            url: String::from_str("https://rpc.bordel.wtf/sepolia"),
        }
    }
}

/// Builds the registry once, from the configuration read at startup.
///
/// `infura_key` is the value of the setting `INFURA_KEY`, or `None` where it
/// is not set. Without it no registry is built: the caller gets a
/// `ConfigError` that names the setting, and is expected not to start serving.
pub fn registry(infura_key: Option<&str>) -> (outcome: Result<Vec<Provider>, AppError>)
    ensures
        match infura_key {
            Some(key) => outcome matches Ok(providers) && provider_views(providers@)
                == registered(key@) && providers@.len() == 2 && providers@[0]@ == infura(key@)
                && providers@[1]@ == bordel(),
            None => outcome matches Err(error) && error@ == (AppErrorView::ConfigError {
                variable: infura_key_variable(),
            }),
        },
{
    match infura_key {
        Some(key) => {
            let mut providers: Vec<Provider> = Vec::new();
            providers.push(Provider::infura(key));
            providers.push(Provider::bordel());
            assert(provider_views(providers@) =~= registered(key@));
            Ok(providers)
        },
        None => Err(AppError::ConfigError { variable: String::from_str("INFURA_KEY") }),
    }
}

} // verus!
