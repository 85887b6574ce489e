use vstd::prelude::*;

use crate::errors::QueryError;

verus! {

/// Whether `regex::Regex::new` accepts a pattern. The answer depends on the
/// pattern text alone.
pub uninterp spec fn regex_compiles(pattern: Seq<char>) -> bool;

/// Whether a text is matched in full (not merely in part) by a pattern,
/// as decided by `regex::Regex::is_match` on the anchored pattern. The
/// answer depends on the pattern and the text alone.
pub uninterp spec fn regex_full_match(pattern: Seq<char>, text: Seq<char>) -> bool;

/// Relies on `regex::Regex::new`: it accepts or rejects a pattern by its
/// syntax alone.
#[verifier::external_body]
pub(crate) fn regex_pattern_compiles(pattern: &str) -> (r: bool)
    ensures
        r == regex_compiles(pattern@),
{
    regex::Regex::new(pattern).is_ok()
}

/// Relies on `regex::Regex::new` and `regex::Regex::is_match`: anchoring a
/// pattern that compiles keeps it compilable, and matching the anchored
/// pattern accepts exactly the texts the pattern matches in full.
#[verifier::external_body]
pub(crate) fn regex_matches_full(pattern: &str, text: &str) -> (r: bool)
    requires
        regex_compiles(pattern@),
    ensures
        r == regex_full_match(pattern@, text@),
{
    match regex::Regex::new(&format!("^(?:{})$", pattern)) {
        Ok(re) => re.is_match(text),
        Err(_) => false,
    }
}

/// The mathematical shape of a node predicate: strings as character sequences.
pub enum NodeSearchSpecView {
    ExactAnnotation { namespace: Option<Seq<char>>, name: Seq<char>, value: Option<Seq<char>> },
    RegexAnnotation { namespace: Option<Seq<char>>, name: Seq<char>, pattern: Seq<char> },
}

impl NodeSearchSpecView {
    /// A regex predicate is only well formed when its pattern compiles;
    /// the constructors establish this.
    pub open spec fn wf(self) -> bool {
        match self {
            NodeSearchSpecView::ExactAnnotation { .. } => true,
            NodeSearchSpecView::RegexAnnotation { pattern, .. } => regex_compiles(pattern),
        }
    }
}

pub open spec fn opt_str_view(o: Option<String>) -> Option<Seq<char>> {
    match o {
        Option::Some(s) => Option::Some(s@),
        Option::None => Option::None,
    }
}

/// A predicate a single graph node must satisfy: an annotation with the given
/// name (in the given namespace, if any) whose value equals a target exactly,
/// or is matched in full by a regular expression.
#[derive(Debug, Clone, PartialEq)]
pub enum NodeSearchSpec {
    ExactAnnotation { namespace: Option<String>, name: String, value: Option<String> },
    RegexAnnotation { namespace: Option<String>, name: String, pattern: String },
}

impl View for NodeSearchSpec {
    type V = NodeSearchSpecView;

    open spec fn view(&self) -> NodeSearchSpecView {
        match self {
            NodeSearchSpec::ExactAnnotation { namespace, name, value } => (
            NodeSearchSpecView::ExactAnnotation {
                namespace: opt_str_view(*namespace),
                name: name@,
                value: opt_str_view(*value),
            }),
            NodeSearchSpec::RegexAnnotation { namespace, name, pattern } => (
            NodeSearchSpecView::RegexAnnotation {
                namespace: opt_str_view(*namespace),
                name: name@,
                pattern: pattern@,
            }),
        }
    }
}

impl NodeSearchSpec {
    /// An exact-annotation predicate. A missing value means: the annotation
    /// merely has to exist under the given name.
    pub fn new_exact(namespace: Option<String>, name: String, value: Option<String>) -> (r:
        NodeSearchSpec)
        ensures
            r@ == (NodeSearchSpecView::ExactAnnotation {
                namespace: opt_str_view(namespace),
                name: name@,
                value: opt_str_view(value),
            }),
            r@.wf(),
    {
        NodeSearchSpec::ExactAnnotation { namespace, name, value }
    }

    /// A regex-annotation predicate. The pattern is validated here, at
    /// construction time: an uncompilable pattern never reaches the matcher.
    pub fn new_regex(namespace: Option<String>, name: String, pattern: String) -> (r: Result<
        NodeSearchSpec,
        QueryError,
    >)
        ensures
            r is Ok <==> regex_compiles(pattern@),
            (match r {
                Ok(s) => s@ == (NodeSearchSpecView::RegexAnnotation {
                    namespace: opt_str_view(namespace),
                    name: name@,
                    pattern: pattern@,
                }) && s@.wf(),
                Err(e) => e == QueryError::InvalidPattern,
            }),
    {
        if regex_pattern_compiles(pattern.as_str()) {
            Ok(NodeSearchSpec::RegexAnnotation { namespace, name, pattern })
        } else {
            Err(QueryError::InvalidPattern)
        }
    }
}

} // verus!
