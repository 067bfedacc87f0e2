//! Policy nodes: one pattern together with an allow/deny value and a priority.

use vstd::prelude::*;

use crate::pattern;

verus! {

/// Outcome of resolving one principal + permission pair.
#[derive(Debug, PartialEq, Eq, Structural, Clone, Copy)]
pub enum PermissionResult {
    Allowed,
    Denied,
    NotSet,
}

/// One policy node: a dot-segmented pattern, an allow (`true`) or deny
/// (`false`) value, and a priority; higher priorities win at resolution.
#[derive(Debug, Clone)]
pub struct PermissionNode {
    pub permission: String,
    pub value: bool,
    pub priority: i32,
}

/// The mathematical content of a policy node.
pub ghost struct NodeView {
    pub pattern: Seq<char>,
    pub value: bool,
    pub priority: int,
}

impl View for PermissionNode {
    type V = NodeView;

    open spec fn view(&self) -> NodeView {
        NodeView { pattern: self.permission@, value: self.value, priority: self.priority as int }
    }
}

impl PermissionNode {
    /// Builds a node from its three parts, taken literally.
    pub fn new(permission: &str, value: bool, priority: i32) -> (n: Self)
        ensures
            n@.pattern == permission@,
            n@.value == value,
            n@.priority == priority as int,
    {
        PermissionNode { permission: permission.to_owned(), value, priority }
    }

    /// Builds a node from a textual pattern where a leading `-` denotes a
    /// denying node: the `-` is stripped from the stored pattern and the
    /// value becomes `false`; otherwise the text is the pattern and the value
    /// is `true`.
    pub fn from_string(permission_str: &str, priority: i32) -> (n: Self)
        ensures
            n@ == spec_from_string(permission_str@, priority as int),
    {
        let len = permission_str.unicode_len();
        if len > 0 && permission_str.get_char(0) == '-' {
            let stripped = permission_str.substring_char(1, len);
            proof {
                assert(stripped@ =~= permission_str@.drop_first());
            }
            PermissionNode::new(stripped, false, priority)
        } else {
            PermissionNode::new(permission_str, true, priority)
        }
    }

    /// Returns a node equal to this one.
    pub fn duplicate(&self) -> (n: Self)
        ensures
            n@ == self@,
    {
        PermissionNode { permission: self.permission.clone(), value: self.value, priority: self.priority }
    }

    /// Whether this node's pattern matches the queried permission.
    pub fn matches(&self, target_permission: &str) -> (r: bool)
        ensures
            r == pattern::pattern_matches(self@.pattern, target_permission@),
    {
        self.permission_matches_pattern(self.permission.as_str(), target_permission)
    }

    /// Whether `pattern` matches `target` under the one-segment-wildcard
    /// semantics of [`pattern::pattern_matches`].
    pub fn permission_matches_pattern(&self, pattern: &str, target: &str) -> (r: bool)
        ensures
            r == pattern::pattern_matches(pattern@, target@),
    {
        pattern::matches(pattern, target)
    }
}

/// What [`PermissionNode::from_string`] yields: a leading `-` strips to a
/// denying node, anything else is an allowing node with the text as pattern.
pub open spec fn spec_from_string(text: Seq<char>, priority: int) -> NodeView {
    if text.len() > 0 && text[0] == '-' {
        NodeView { pattern: text.drop_first(), value: false, priority }
    } else {
        NodeView { pattern: text, value: true, priority }
    }
}

} // verus!
