//! What the caller asks for: the command line and the request it describes.
use vstd::prelude::*;

verus! {

/// HTTP method of a transfer.
#[derive(Clone, Copy, Debug, PartialEq, Eq, Structural)]
pub enum Method {
    Get,
    Post,
    Put,
    Delete,
    Head,
}

/// The method's name on the wire.
pub open spec fn method_name(m: Method) -> Seq<char> {
    match m {
        Method::Get => "GET"@,
        Method::Post => "POST"@,
        Method::Put => "PUT"@,
        Method::Delete => "DELETE"@,
        Method::Head => "HEAD"@,
    }
}

impl Method {
    /// The method's name on the wire.
    pub fn as_str(&self) -> (r: &'static str)
        ensures
            r@ == method_name(*self),
    {
        match self {
            Method::Get => "GET",
            Method::Post => "POST",
            Method::Put => "PUT",
            Method::Delete => "DELETE",
            Method::Head => "HEAD",
        }
    }
}

/// One logical request: method, target, optional body, raw headers in the
/// order given, the destination file (none: print to the console) and whether
/// to trace the exchange.
pub struct TransferRequest {
    pub method: Method,
    pub url: String,
    pub body: Option<String>,
    pub headers: Vec<String>,
    pub output: Option<String>,
    pub verbose: bool,
}

/// The command line: one subcommand.
pub struct Cli {
    pub command: Commands,
}

/// The subcommands, one per method.
pub enum Commands {
    Get { url: String, output: Option<String>, headers: Vec<String>, verbose: bool },
    Post {
        url: String,
        data: Option<String>,
        output: Option<String>,
        headers: Vec<String>,
        verbose: bool,
    },
    Put {
        url: String,
        data: Option<String>,
        output: Option<String>,
        headers: Vec<String>,
        verbose: bool,
    },
    Delete { url: String, output: Option<String>, headers: Vec<String>, verbose: bool },
    Head { url: String, headers: Vec<String>, verbose: bool },
}

pub open spec fn opt_view(o: Option<String>) -> Option<Seq<char>> {
    match o {
        Some(s) => Some(s@),
        None => None,
    }
}

fn clone_opt(o: &Option<String>) -> (r: Option<String>)
    ensures
        opt_view(r) == opt_view(*o),
{
    match o {
        Some(s) => Some(s.clone()),
        None => None,
    }
}

fn clone_list(v: &Vec<String>) -> (r: Vec<String>)
    ensures
        r@.len() == v@.len(),
        forall|i: int| 0 <= i < v@.len() ==> #[trigger] r@[i]@ == v@[i]@,
{
    let mut r: Vec<String> = Vec::new();
    let mut i: usize = 0;
    while i < v.len()
        invariant
            i <= v@.len(),
            r@.len() == i,
            forall|j: int| 0 <= j < i ==> #[trigger] r@[j]@ == v@[j]@,
        decreases v@.len() - i,
    {
        r.push(v[i].clone());
        i = i + 1;
    }
    r
}

impl Commands {
    /// The method a subcommand stands for.
    pub open spec fn method_spec(&self) -> Method {
        match self {
            Commands::Get { .. } => Method::Get,
            Commands::Post { .. } => Method::Post,
            Commands::Put { .. } => Method::Put,
            Commands::Delete { .. } => Method::Delete,
            Commands::Head { .. } => Method::Head,
        }
    }

    /// The subcommand's URL.
    pub open spec fn url_spec(&self) -> Seq<char> {
        match self {
            Commands::Get { url, .. } => url@,
            Commands::Post { url, .. } => url@,
            Commands::Put { url, .. } => url@,
            Commands::Delete { url, .. } => url@,
            Commands::Head { url, .. } => url@,
        }
    }

    /// The request body: only `post` and `put` carry one.
    pub open spec fn body_spec(&self) -> Option<Seq<char>> {
        match self {
            Commands::Post { data, .. } => opt_view(*data),
            Commands::Put { data, .. } => opt_view(*data),
            _ => None,
        }
    }

    /// The destination file: `head` never has one.
    pub open spec fn output_spec(&self) -> Option<Seq<char>> {
        match self {
            Commands::Get { output, .. } => opt_view(*output),
            Commands::Post { output, .. } => opt_view(*output),
            Commands::Put { output, .. } => opt_view(*output),
            Commands::Delete { output, .. } => opt_view(*output),
            Commands::Head { .. } => None,
        }
    }

    pub open spec fn headers_spec(&self) -> Seq<String> {
        match self {
            Commands::Get { headers, .. } => headers@,
            Commands::Post { headers, .. } => headers@,
            Commands::Put { headers, .. } => headers@,
            Commands::Delete { headers, .. } => headers@,
            Commands::Head { headers, .. } => headers@,
        }
    }

    pub open spec fn verbose_spec(&self) -> bool {
        match self {
            Commands::Get { verbose, .. } => *verbose,
            Commands::Post { verbose, .. } => *verbose,
            Commands::Put { verbose, .. } => *verbose,
            Commands::Delete { verbose, .. } => *verbose,
            Commands::Head { verbose, .. } => *verbose,
        }
    }

    /// The request that a subcommand describes.
    pub fn to_request(&self) -> (r: TransferRequest)
        ensures
            r.method == self.method_spec(),
            r.url@ == self.url_spec(),
            opt_view(r.body) == self.body_spec(),
            opt_view(r.output) == self.output_spec(),
            r.headers@.len() == self.headers_spec().len(),
            forall|i: int|
                0 <= i < r.headers@.len() ==> #[trigger] r.headers@[i]@ == self.headers_spec()[i]@,
            r.verbose == self.verbose_spec(),
    {
        match self {
            Commands::Get { url, output, headers, verbose } => TransferRequest {
                method: Method::Get,
                url: url.clone(),
                body: None,
                headers: clone_list(headers),
                output: clone_opt(output),
                verbose: *verbose,
            },
            Commands::Post { url, data, output, headers, verbose } => TransferRequest {
                method: Method::Post,
                url: url.clone(),
                body: clone_opt(data),
                headers: clone_list(headers),
                output: clone_opt(output),
                verbose: *verbose,
            },
            Commands::Put { url, data, output, headers, verbose } => TransferRequest {
                method: Method::Put,
                url: url.clone(),
                body: clone_opt(data),
                headers: clone_list(headers),
                output: clone_opt(output),
                verbose: *verbose,
            },
            Commands::Delete { url, output, headers, verbose } => TransferRequest {
                method: Method::Delete,
                url: url.clone(),
                body: None,
                headers: clone_list(headers),
                output: clone_opt(output),
                verbose: *verbose,
            },
            Commands::Head { url, headers, verbose } => TransferRequest {
                method: Method::Head,
                url: url.clone(),
                body: None,
                headers: clone_list(headers),
                output: None,
                verbose: *verbose,
            },
        }
    }
}

} // verus!
