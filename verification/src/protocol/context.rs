//! The credential record that a resolution fills in.
use crate::text::opt_text;
use vstd::prelude::*;

verus! {

/// What is known of a credential and of the resource it is for. Every field may
/// be absent.
#[derive(Debug, PartialEq, Eq)]
pub struct Context {
    /// The protocol over which the credential is used, like `https`.
    pub protocol: Option<String>,
    /// The host, followed by `:` and the port where one is named.
    pub host: Option<String>,
    /// The path on the host, without slashes around it.
    pub path: Option<String>,
    /// The name of the user.
    pub username: Option<String>,
    /// The secret of the user.
    pub password: Option<String>,
    /// The resource as one URL, from which protocol, host and path can be derived.
    pub url: Option<String>,
    /// Set by a helper that wants no further helper, and no user, to be asked.
    pub quit: Option<bool>,
}

/// The view of a [`Context`]: its texts as sequences of characters.
pub struct ContextView {
    pub protocol: Option<Seq<char>>,
    pub host: Option<Seq<char>>,
    pub path: Option<Seq<char>>,
    pub username: Option<Seq<char>>,
    pub password: Option<Seq<char>>,
    pub url: Option<Seq<char>>,
    pub quit: Option<bool>,
}

/// `new` where something is there, else `current`.
pub open spec fn prefer<T>(new: Option<T>, current: Option<T>) -> Option<T> {
    if new is Some {
        new
    } else {
        current
    }
}

impl ContextView {
    /// The record with every field absent.
    pub open spec fn empty() -> ContextView {
        ContextView {
            protocol: None,
            host: None,
            path: None,
            username: None,
            password: None,
            url: None,
            quit: None,
        }
    }

    /// Whether both the name and the secret are there.
    pub open spec fn is_complete(self) -> bool {
        self.username is Some && self.password is Some
    }

    /// The record after a reply was laid over it: each text that the reply holds
    /// replaces the one here, each that it lacks leaves the one here as it was.
    /// The `quit` flag is not a text and stays.
    pub open spec fn overlay(self, reply: ContextView) -> ContextView {
        ContextView {
            protocol: prefer(reply.protocol, self.protocol),
            host: prefer(reply.host, self.host),
            path: prefer(reply.path, self.path),
            username: prefer(reply.username, self.username),
            password: prefer(reply.password, self.password),
            url: prefer(reply.url, self.url),
            quit: self.quit,
        }
    }

    /// Protocol, user, host and path put together as a URL, where protocol and
    /// host are known.
    pub open spec fn location(self) -> Option<Seq<char>> {
        if self.protocol is Some && self.host is Some {
            let scheme = self.protocol->0 + "://"@;
            let user = match self.username {
                Some(name) => scheme + name + "@"@,
                None => scheme,
            };
            let host = user + self.host->0;
            Some(
                match self.path {
                    Some(path) => host + "/"@ + path,
                    None => host,
                },
            )
        } else {
            None
        }
    }

    /// The text shown to the user when `field` is asked for.
    pub open spec fn prompt(self, field: Seq<char>) -> Seq<char> {
        match self.location() {
            Some(url) => field + " for "@ + url + ": "@,
            None => field + ": "@,
        }
    }
}

impl View for Context {
    type V = ContextView;

    open spec fn view(&self) -> ContextView {
        ContextView {
            protocol: opt_text(self.protocol),
            host: opt_text(self.host),
            path: opt_text(self.path),
            username: opt_text(self.username),
            password: opt_text(self.password),
            url: opt_text(self.url),
            quit: self.quit,
        }
    }
}

impl Clone for Context {
    fn clone(&self) -> (r: Self)
        ensures
            r@ == self@,
    {
        Context {
            protocol: self.protocol.clone(),
            host: self.host.clone(),
            path: self.path.clone(),
            username: self.username.clone(),
            password: self.password.clone(),
            url: self.url.clone(),
            quit: self.quit,
        }
    }
}

impl Default for Context {
    fn default() -> (r: Self)
        ensures
            r@ == ContextView::empty(),
    {
        Context {
            protocol: None,
            host: None,
            path: None,
            username: None,
            password: None,
            url: None,
            quit: None,
        }
    }
}

impl Context {
    /// Whether both the name and the secret are there.
    pub fn is_complete(&self) -> (b: bool)
        ensures
            b == self@.is_complete(),
    {
        self.username.is_some() && self.password.is_some()
    }

    /// Lays `reply` over this record: each text that `reply` holds replaces the
    /// one here.
    pub fn merge(&mut self, reply: Context)
        ensures
            final(self)@ == old(self)@.overlay(reply@),
    {
        let Context { protocol, host, path, username, password, url, quit: _ } = reply;
        if path.is_some() {
            self.path = path;
        }
        if protocol.is_some() {
            self.protocol = protocol;
        }
        if host.is_some() {
            self.host = host;
        }
        if username.is_some() {
            self.username = username;
        }
        if password.is_some() {
            self.password = password;
        }
        if url.is_some() {
            self.url = url;
        }
    }

    /// Protocol, user, host and path put together as a URL, where protocol and
    /// host are known.
    pub fn to_url(&self) -> (r: Option<String>)
        ensures
            opt_text(r) == self@.location(),
    {
        match (&self.protocol, &self.host) {
            (Some(protocol), Some(host)) => {
                let mut url = protocol.clone();
                url.append("://");
                if let Some(name) = &self.username {
                    url.append(name.as_str());
                    url.append("@");
                }
                url.append(host.as_str());
                if let Some(path) = &self.path {
                    url.append("/");
                    url.append(path.as_str());
                }
                Some(url)
            },
            _ => None,
        }
    }

    /// The text to show to the user when `field` is asked for: the field's name,
    /// then the URL where one can be put together, then a colon and a space.
    pub fn to_prompt(&self, field: &str) -> (r: String)
        ensures
            r@ == self@.prompt(field@),
    {
        let mut text = field.to_owned();
        if let Some(url) = self.to_url() {
            text.append(" for ");
            text.append(url.as_str());
        }
        text.append(": ");
        text
    }
}

} // verus!
