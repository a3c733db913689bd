use vstd::prelude::*;

verus! {

/// A kind of access to a bucket.
#[derive(Clone, Copy, Debug, PartialEq, Eq, Structural)]
pub enum Action {
    Read,
    Write,
}

/// Who is calling: a validated principal, or nobody in particular.
#[derive(Clone, Debug, PartialEq, Eq)]
pub enum Credentials {
    Anonymous,
    Principal(String),
}

/// What an operation requires of its caller.
#[derive(Clone, Debug, PartialEq, Eq)]
pub enum Policy {
    /// Anyone may call.
    Open,
    /// The caller must be a known principal.
    Authenticated,
    /// The caller must hold `action` on the bucket named `resource`.
    ResourceScoped { action: Action, resource: String },
}

/// Why a request was turned away.
#[derive(Clone, Copy, Debug, PartialEq, Eq, Structural)]
pub enum DenyReason {
    /// No principal could be identified.
    NotAuthenticated,
    /// The principal lacks the right that the policy names.
    MissingRight,
}

#[derive(Clone, Copy, Debug, PartialEq, Eq, Structural)]
pub enum Verdict {
    Allow,
    Deny(DenyReason),
}

/// One right held by one principal.
#[derive(Clone, Debug, PartialEq, Eq)]
pub struct Grant {
    pub principal: String,
    pub action: Action,
    pub resource: String,
}

/// Some grant gives `principal` the right `action` on `resource`.
pub open spec fn granted(
    grants: Seq<Grant>,
    principal: Seq<char>,
    action: Action,
    resource: Seq<char>,
) -> bool {
    exists|i: int|
        0 <= i < grants.len() && grants[i].principal@ == principal && grants[i].action == action
            && grants[i].resource@ == resource
}

/// The verdict on `policy` for `creds`, given the rights in `grants`.
pub open spec fn verdict_of(policy: Policy, creds: Credentials, grants: Seq<Grant>) -> Verdict {
    match policy {
        Policy::Open => Verdict::Allow,
        Policy::Authenticated => match creds {
            Credentials::Anonymous => Verdict::Deny(DenyReason::NotAuthenticated),
            Credentials::Principal(_) => Verdict::Allow,
        },
        Policy::ResourceScoped { action, resource } => match creds {
            Credentials::Anonymous => Verdict::Deny(DenyReason::NotAuthenticated),
            Credentials::Principal(p) => if granted(grants, p@, action, resource@) {
                Verdict::Allow
            } else {
                Verdict::Deny(DenyReason::MissingRight)
            },
        },
    }
}

/// The rights store: the rights each principal holds, read only while a
/// request is judged.
pub struct Rights {
    grants: Vec<Grant>,
}

impl View for Rights {
    type V = Seq<Grant>;

    closed spec fn view(&self) -> Seq<Grant> {
        self.grants@
    }
}

impl Rights {
    pub fn new() -> (r: Rights)
        ensures
            r@ == Seq::<Grant>::empty(),
    {
        Rights { grants: Vec::new() }
    }

    /// Adds the right `action` on `resource` for `principal`.
    pub fn grant(&mut self, principal: &str, action: Action, resource: &str)
        ensures
            final(self)@ == old(self)@.push(final(self)@.last()),
            final(self)@.last().principal@ == principal@,
            final(self)@.last().action == action,
            final(self)@.last().resource@ == resource@,
    {
        self.grants.push(
            Grant { principal: principal.to_owned(), action, resource: resource.to_owned() },
        );
    }

    /// Whether `principal` holds `action` on `resource`.
    pub fn has_right(&self, principal: &String, action: Action, resource: &String) -> (r: bool)
        ensures
            r == granted(self@, principal@, action, resource@),
    {
        let mut i: usize = 0;
        while i < self.grants.len()
            invariant
                i <= self@.len(),
                forall|k: int|
                    0 <= k < i ==> !(self@[k].principal@ == principal@ && self@[k].action == action
                        && self@[k].resource@ == resource@),
            decreases self@.len() - i,
        {
            let g = &self.grants[i];
            if g.principal == *principal && g.action == action && g.resource == *resource {
                return true;
            }
            i = i + 1;
        }
        false
    }
}

/// Decides whether `creds` satisfy `policy`. Anonymous callers are denied
/// anything but an open policy; the rights store is only read.
pub fn evaluate(policy: &Policy, creds: &Credentials, rights: &Rights) -> (r: Verdict)
    ensures
        r == verdict_of(*policy, *creds, rights@),
{
    match policy {
        Policy::Open => Verdict::Allow,
        Policy::Authenticated => match creds {
            Credentials::Anonymous => Verdict::Deny(DenyReason::NotAuthenticated),
            Credentials::Principal(_) => Verdict::Allow,
        },
        Policy::ResourceScoped { action, resource } => match creds {
            Credentials::Anonymous => Verdict::Deny(DenyReason::NotAuthenticated),
            Credentials::Principal(p) => if rights.has_right(p, *action, resource) {
                Verdict::Allow
            } else {
                Verdict::Deny(DenyReason::MissingRight)
            },
        },
    }
}

} // verus!
