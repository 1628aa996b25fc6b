//! The load request: which kind to load, and how.

use vstd::prelude::*;

use crate::kind::Kind;

verus! {

/// The mathematical content of a `Config`.
pub ghost struct ConfigView {
    /// The kind being loaded.
    pub kind: Kind,
    /// The application name, used by callers to resolve the base directory.
    pub app_name: Seq<char>,
    /// Whether the shared `common` file is merged first.
    pub common: bool,
    /// Whether comment lines are recognised.
    pub comments: bool,
    /// The character that opens a comment line.
    pub comment_char: char,
    /// Whether the OS environment seeds the mapping.
    pub os: bool,
}

/// An immutable-once-built description of one load request.
#[derive(Clone, Debug)]
pub struct Config {
    kind: Kind,
    app_name: String,
    common: bool,
    comments: bool,
    comment_char: char,
    os: bool,
}

impl View for Config {
    type V = ConfigView;

    closed spec fn view(&self) -> ConfigView {
        ConfigView {
            kind: self.kind,
            app_name: self.app_name@,
            common: self.common,
            comments: self.comments,
            comment_char: self.comment_char,
            os: self.os,
        }
    }
}

impl Config {
    /// The environment kind this request loads.
    pub fn kind(&self) -> (r: Kind)
        ensures
            r == self@.kind,
    {
        self.kind
    }

    /// The application name.
    pub fn app_name(&self) -> (r: &String)
        ensures
            r@ == self@.app_name,
    {
        &self.app_name
    }

    /// Whether the shared `common` file is merged before the kind file.
    pub fn common(&self) -> (r: bool)
        ensures
            r == self@.common,
    {
        self.common
    }

    /// Whether comment lines are recognised.
    pub fn comments(&self) -> (r: bool)
        ensures
            r == self@.comments,
    {
        self.comments
    }

    /// The character that opens a comment line.
    pub fn comment_char(&self) -> (r: char)
        ensures
            r == self@.comment_char,
    {
        self.comment_char
    }

    /// Whether the OS environment seeds the mapping.
    pub fn os(&self) -> (r: bool)
        ensures
            r == self@.os,
    {
        self.os
    }

    /// Select another kind.
    pub fn set_kind(&mut self, kind: Kind)
        ensures
            final(self)@ == (ConfigView { kind, ..old(self)@ }),
    {
        self.kind = kind;
    }

    /// Rename the application.
    pub fn set_app_name(&mut self, app_name: String)
        ensures
            final(self)@ == (ConfigView { app_name: app_name@, ..old(self)@ }),
    {
        self.app_name = app_name;
    }

    /// Switch the shared `common` file on or off.
    pub fn set_common(&mut self, common: bool)
        ensures
            final(self)@ == (ConfigView { common, ..old(self)@ }),
    {
        self.common = common;
    }

    /// Switch comment recognition on or off.
    pub fn set_comments(&mut self, comments: bool)
        ensures
            final(self)@ == (ConfigView { comments, ..old(self)@ }),
    {
        self.comments = comments;
    }

    /// Change the comment character.
    pub fn set_comment_char(&mut self, comment_char: char)
        ensures
            final(self)@ == (ConfigView { comment_char, ..old(self)@ }),
    {
        self.comment_char = comment_char;
    }

    /// Switch OS-environment seeding on or off.
    pub fn set_os(&mut self, os: bool)
        ensures
            final(self)@ == (ConfigView { os, ..old(self)@ }),
    {
        self.os = os;
    }
}

/// The mathematical content of a `ConfigBuilder`: which fields were given.
pub ghost struct ConfigBuilderView {
    /// The kind, when one was given.
    pub kind: Option<Kind>,
    /// The application name, when one was given.
    pub app_name: Option<Seq<char>>,
    /// The `common` flag, when one was given.
    pub common: Option<bool>,
    /// The `comments` flag, when one was given.
    pub comments: Option<bool>,
    /// The comment character, when one was given.
    pub comment_char: Option<char>,
    /// The `os` flag, when one was given.
    pub os: Option<bool>,
}

/// The configuration a builder denotes once an application name was given:
/// every other field falls back to its default.
pub open spec fn built_view(b: ConfigBuilderView) -> ConfigView {
    ConfigView {
        kind: match b.kind {
            Some(k) => k,
            None => Kind::Development,
        },
        app_name: match b.app_name {
            Some(n) => n,
            None => Seq::empty(),
        },
        common: match b.common {
            Some(v) => v,
            None => false,
        },
        comments: match b.comments {
            Some(v) => v,
            None => false,
        },
        comment_char: match b.comment_char {
            Some(v) => v,
            None => '#',
        },
        os: match b.os {
            Some(v) => v,
            None => false,
        },
    }
}

/// A fluent builder for `Config`, with defaults for every field but the
/// application name.
#[derive(Clone, Debug)]
pub struct ConfigBuilder {
    kind: Option<Kind>,
    app_name: Option<String>,
    common: Option<bool>,
    comments: Option<bool>,
    comment_char: Option<char>,
    os: Option<bool>,
}

impl View for ConfigBuilder {
    type V = ConfigBuilderView;

    closed spec fn view(&self) -> ConfigBuilderView {
        ConfigBuilderView {
            kind: match self.kind {
                Some(k) => Some(k),
                None => None,
            },
            app_name: match self.app_name {
                Some(n) => Some(n@),
                None => None,
            },
            common: self.common,
            comments: self.comments,
            comment_char: self.comment_char,
            os: self.os,
        }
    }
}

impl Default for ConfigBuilder {
    /// A builder with no field given yet.
    fn default() -> (r: ConfigBuilder)
        ensures
            r@ == (ConfigBuilderView {
                kind: None,
                app_name: None,
                common: None,
                comments: None,
                comment_char: None,
                os: None,
            }),
    {
        ConfigBuilder {
            kind: None,
            app_name: None,
            common: None,
            comments: None,
            comment_char: None,
            os: None,
        }
    }
}

impl ConfigBuilder {
    /// The kind used when none was given.
    pub fn default_kind(&self) -> (r: Kind)
        ensures
            r == Kind::Development,
    {
        Kind::Development
    }

    /// Give the kind to load.
    pub fn kind(self, kind: Kind) -> (r: ConfigBuilder)
        ensures
            r@ == (ConfigBuilderView { kind: Some(kind), ..self@ }),
    {
        ConfigBuilder { kind: Some(kind), ..self }
    }

    /// Give the application name.
    pub fn app_name(self, app_name: &str) -> (r: ConfigBuilder)
        ensures
            r@ == (ConfigBuilderView { app_name: Some(app_name@), ..self@ }),
    {
        ConfigBuilder { app_name: Some(app_name.to_owned()), ..self }
    }

    /// Give the `common` flag.
    pub fn common(self, common: bool) -> (r: ConfigBuilder)
        ensures
            r@ == (ConfigBuilderView { common: Some(common), ..self@ }),
    {
        ConfigBuilder { common: Some(common), ..self }
    }

    /// Give the `comments` flag.
    pub fn comments(self, comments: bool) -> (r: ConfigBuilder)
        ensures
            r@ == (ConfigBuilderView { comments: Some(comments), ..self@ }),
    {
        ConfigBuilder { comments: Some(comments), ..self }
    }

    /// Give the comment character.
    pub fn comment_char(self, comment_char: char) -> (r: ConfigBuilder)
        ensures
            r@ == (ConfigBuilderView { comment_char: Some(comment_char), ..self@ }),
    {
        ConfigBuilder { comment_char: Some(comment_char), ..self }
    }

    /// Give the `os` flag.
    pub fn os(self, os: bool) -> (r: ConfigBuilder)
        ensures
            r@ == (ConfigBuilderView { os: Some(os), ..self@ }),
    {
        ConfigBuilder { os: Some(os), ..self }
    }

    /// Build the configuration: `None` exactly when no application name
    /// was given, every other missing field taking its default.
    pub fn build(&self) -> (r: Option<Config>)
        ensures
            match r {
                Some(c) => self@.app_name is Some && c@ == built_view(self@),
                None => self@.app_name is None,
            },
    {
        match &self.app_name {
            None => None,
            Some(name) => {
                let kind = match &self.kind {
                    Some(k) => *k,
                    None => self.default_kind(),
                };
                let common = match &self.common {
                    Some(v) => *v,
                    None => false,
                };
                let comments = match &self.comments {
                    Some(v) => *v,
                    None => false,
                };
                let comment_char = match &self.comment_char {
                    Some(v) => *v,
                    None => '#',
                };
                let os = match &self.os {
                    Some(v) => *v,
                    None => false,
                };
                Some(
                    Config {
                        kind,
                        app_name: name.clone(),
                        common,
                        comments,
                        comment_char,
                        os,
                    },
                )
            },
        }
    }
}

} // verus!
