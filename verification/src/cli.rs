//! The choices a run is configured with, and the plain record of the
//! command-line options.

use vstd::prelude::*;
use crate::decimal::Decimal;

verus! {

/// The method of the requests.
#[derive(Debug, Clone, Copy, PartialEq, Eq, Structural)]
pub enum HttpMethod {
    Get,
    Post,
    Put,
    Patch,
    Delete,
    Head,
}

impl HttpMethod {
    /// The method as it is written on the wire.
    pub open spec fn name_spec(self) -> Seq<char> {
        match self {
            HttpMethod::Get => "GET"@,
            HttpMethod::Post => "POST"@,
            HttpMethod::Put => "PUT"@,
            HttpMethod::Patch => "PATCH"@,
            HttpMethod::Delete => "DELETE"@,
            HttpMethod::Head => "HEAD"@,
        }
    }

    /// Writes the name as it is shown.
    pub fn name(&self) -> (r: String)
        ensures
            r@ == self.name_spec(),
    {
        match self {
            HttpMethod::Get => "GET".to_owned(),
            HttpMethod::Post => "POST".to_owned(),
            HttpMethod::Put => "PUT".to_owned(),
            HttpMethod::Patch => "PATCH".to_owned(),
            HttpMethod::Delete => "DELETE".to_owned(),
            HttpMethod::Head => "HEAD".to_owned(),
        }
    }
}

/// How requests are authenticated. `NoAuth` sends no credentials.
#[derive(Debug, Clone, Copy, PartialEq, Eq, Structural)]
pub enum AuthType {
    NoAuth,
    Basic,
    Bearer,
    Header,
}

impl AuthType {
    /// The name as it is shown.
    pub open spec fn name_spec(self) -> Seq<char> {
        match self {
            AuthType::NoAuth => "None"@,
            AuthType::Basic => "Basic Auth"@,
            AuthType::Bearer => "Bearer Token"@,
            AuthType::Header => "Custom Header"@,
        }
    }

    /// Writes the name as it is shown.
    pub fn name(&self) -> (r: String)
        ensures
            r@ == self.name_spec(),
    {
        match self {
            AuthType::NoAuth => "None".to_owned(),
            AuthType::Basic => "Basic Auth".to_owned(),
            AuthType::Bearer => "Bearer Token".to_owned(),
            AuthType::Header => "Custom Header".to_owned(),
        }
    }
}

/// How the rate grows from one step to the next.
#[derive(Debug, Clone, Copy, PartialEq, Eq, Structural)]
pub enum RampingMode {
    Linear,
    Exponential,
}

impl RampingMode {
    /// The name as it is shown.
    pub open spec fn name_spec(self) -> Seq<char> {
        match self {
            RampingMode::Linear => "Linear"@,
            RampingMode::Exponential => "Exponential"@,
        }
    }

    /// Writes the name as it is shown.
    pub fn name(&self) -> (r: String)
        ensures
            r@ == self.name_spec(),
    {
        match self {
            RampingMode::Linear => "Linear".to_owned(),
            RampingMode::Exponential => "Exponential".to_owned(),
        }
    }
}

/// The command-line options, as plain values.
#[derive(Debug, Clone)]
pub struct Args {
    pub url: Vec<String>,
    pub method: HttpMethod,
    pub body: Option<String>,
    pub user_agent: String,
    pub auth_type: AuthType,
    pub auth_user: Option<String>,
    pub auth_pass: Option<String>,
    pub auth_token: Option<String>,
    pub auth_header: Option<String>,
    pub headers: Vec<String>,
    pub mode: RampingMode,
    pub start_rate: u32,
    pub max_rate: u32,
    pub step: u32,
    pub duration: u32,
    pub threads: u32,
    pub connections: u32,
    pub max_error_rate: Decimal,
    pub max_p99: u32,
    pub warmup: u32,
    pub cooldown: u32,
    pub report_dir: Option<String>,
    pub report_name: Option<String>,
    pub non_interactive: bool,
}

} // verus!
