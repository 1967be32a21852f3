//! Validated paths relative to a scenario package root.
//!
//! A scenario-relative path is a non-empty sequence of `/`-separated components. It never
//! starts at the filesystem root, never names a drive or URL scheme, never uses a backslash
//! separator, and never holds an empty, `.` or `..` component, so joining it to a package root
//! cannot leave that root.

use vstd::prelude::*;

verus! {

/// Why text is not a scenario-relative path.
#[derive(Clone, Copy, Debug, PartialEq, Eq, Structural)]
pub enum ScenarioRelativePathError {
    /// The text is empty.
    Empty,
    /// The text starts with `/`.
    Absolute,
    /// The text holds a `\`.
    Backslash,
    /// The text holds a `:`, as a drive letter or URL scheme would.
    DriveOrScheme,
    /// Two separators are adjacent, or the text ends with one.
    EmptyComponent,
    /// A component is `.` or `..`.
    DotComponent,
}

impl ScenarioRelativePathError {
    /// The human-readable explanation.
    pub fn to_string(&self) -> (r: String)
        ensures
            r@ == self.spec_message(),
    {
        match self {
            ScenarioRelativePathError::Empty => "scenario-relative path must not be empty".to_owned(),
            ScenarioRelativePathError::Absolute => "scenario-relative path must not start with `/`".to_owned(),
            ScenarioRelativePathError::Backslash => "scenario-relative path must use `/` separators".to_owned(),
            ScenarioRelativePathError::DriveOrScheme => "scenario-relative path must not name a drive or scheme".to_owned(),
            ScenarioRelativePathError::EmptyComponent => "scenario-relative path must not contain an empty component".to_owned(),
            ScenarioRelativePathError::DotComponent => "scenario-relative path must not contain `.` or `..` components".to_owned(),
        }
    }

    /// The human-readable explanation.
    pub open spec fn spec_message(&self) -> Seq<char> {
        match self {
            ScenarioRelativePathError::Empty => "scenario-relative path must not be empty"@,
            ScenarioRelativePathError::Absolute => "scenario-relative path must not start with `/`"@,
            ScenarioRelativePathError::Backslash => "scenario-relative path must use `/` separators"@,
            ScenarioRelativePathError::DriveOrScheme => "scenario-relative path must not name a drive or scheme"@,
            ScenarioRelativePathError::EmptyComponent => "scenario-relative path must not contain an empty component"@,
            ScenarioRelativePathError::DotComponent => "scenario-relative path must not contain `.` or `..` components"@,
        }
    }
}

/// Whether a component starts at `i`.
pub open spec fn starts_component(s: Seq<char>, i: int) -> bool {
    i == 0 || s[i - 1] == '/'
}

/// Whether a component ends just before `i`.
pub open spec fn ends_component(s: Seq<char>, i: int) -> bool {
    i == s.len() || s[i] == '/'
}

/// Whether the text holds `c`.
pub open spec fn holds(s: Seq<char>, c: char) -> bool {
    exists|i: int| 0 <= i < s.len() && s[i] == c
}

/// Whether some component is empty (given the text is non-empty and not absolute).
pub open spec fn has_empty_component(s: Seq<char>) -> bool {
    exists|i: int| 0 <= i < s.len() && s[i] == '/' && ends_component(s, i + 1)
}

/// Whether some component is `.` or `..`.
pub open spec fn has_dot_component(s: Seq<char>) -> bool {
    exists|i: int|
        0 <= i < s.len() && starts_component(s, i) && s[i] == '.' && (ends_component(s, i + 1) || (i
            + 1 < s.len() && s[i + 1] == '.' && ends_component(s, i + 2)))
}

/// The first rule the text breaks, in the order the rules are listed, if any.
pub open spec fn path_error(s: Seq<char>) -> Option<ScenarioRelativePathError> {
    if s.len() == 0 {
        Some(ScenarioRelativePathError::Empty)
    } else if s[0] == '/' {
        Some(ScenarioRelativePathError::Absolute)
    } else if holds(s, '\\') {
        Some(ScenarioRelativePathError::Backslash)
    } else if holds(s, ':') {
        Some(ScenarioRelativePathError::DriveOrScheme)
    } else if has_empty_component(s) {
        Some(ScenarioRelativePathError::EmptyComponent)
    } else if has_dot_component(s) {
        Some(ScenarioRelativePathError::DotComponent)
    } else {
        None
    }
}

/// A validated scenario-relative path.
#[derive(Debug, PartialEq, Eq)]
pub struct ScenarioRelativePath {
    text: String,
}

impl ScenarioRelativePath {
    #[verifier::type_invariant]
    spec fn valid(self) -> bool {
        path_error(self.text@) is None
    }

    /// The path's characters.
    pub closed spec fn view(&self) -> Seq<char> {
        self.text@
    }

    /// Accepts `text` when it breaks none of the rules; otherwise reports the first rule broken.
    pub fn try_from(text: &str) -> (r: Result<Self, ScenarioRelativePathError>)
        ensures
            match path_error(text@) {
                Some(e) => r == Err::<Self, ScenarioRelativePathError>(e),
                None => r matches Ok(p) && p.view() == text@,
            },
    {
        match check_path(text) {
            Some(e) => Err(e),
            None => Ok(ScenarioRelativePath { text: text.to_owned() }),
        }
    }

    /// The path's text.
    pub fn as_str(&self) -> (r: &str)
        ensures
            r@ == self.view(),
            path_error(r@) is None,
    {
        proof {
            use_type_invariant(self);
        }
        self.text.as_str()
    }

    /// An equal path.
    pub fn copy(&self) -> (r: Self)
        ensures
            r.view() == self.view(),
    {
        proof {
            use_type_invariant(self);
        }
        ScenarioRelativePath { text: self.text.clone() }
    }
}

/// The first rule `text` breaks, if any.
pub fn check_path(text: &str) -> (r: Option<ScenarioRelativePathError>)
    ensures
        r == path_error(text@),
{
    let n = text.unicode_len();
    let ghost s = text@;
    if n == 0 {
        return Some(ScenarioRelativePathError::Empty);
    }
    if text.get_char(0) == '/' {
        return Some(ScenarioRelativePathError::Absolute);
    }
    let mut backslash = false;
    let mut colon = false;
    let mut empty_component = false;
    let mut dot_component = false;
    let mut i: usize = 0;
    while i < n
        invariant
            n == s.len(),
            s == text@,
            n > 0,
            i <= n,
            backslash <==> exists|k: int| 0 <= k < i && s[k] == '\\',
            colon <==> exists|k: int| 0 <= k < i && s[k] == ':',
            empty_component <==> exists|k: int|
                0 <= k < i && s[k] == '/' && ends_component(s, k + 1),
            dot_component <==> exists|k: int|
                0 <= k < i && starts_component(s, k) && s[k] == '.' && (ends_component(s, k + 1)
                    || (k + 1 < s.len() && s[k + 1] == '.' && ends_component(s, k + 2))),
        decreases n - i,
    {
        let c = text.get_char(i);
        if c == '\\' {
            backslash = true;
        }
        if c == ':' {
            colon = true;
        }
        let next_ends = i + 1 == n || text.get_char(i + 1) == '/';
        if c == '/' && next_ends {
            empty_component = true;
        }
        let starts = i == 0 || text.get_char(i - 1) == '/';
        if starts && c == '.' {
            let dotdot = i + 1 < n && text.get_char(i + 1) == '.' && (i + 2 == n || text.get_char(
                i + 2,
            ) == '/');
            assert(dotdot == (i + 1 < s.len() && s[i + 1] == '.' && ends_component(s, i + 2)));
            if next_ends || dotdot {
                dot_component = true;
            }
        }
        assert(next_ends == ends_component(s, i + 1));
        assert(starts == starts_component(s, i as int));
        i = i + 1;
    }
    if backslash {
        Some(ScenarioRelativePathError::Backslash)
    } else if colon {
        Some(ScenarioRelativePathError::DriveOrScheme)
    } else if empty_component {
        Some(ScenarioRelativePathError::EmptyComponent)
    } else if dot_component {
        Some(ScenarioRelativePathError::DotComponent)
    } else {
        None
    }
}

} // verus!
