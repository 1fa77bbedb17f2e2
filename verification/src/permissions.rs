//! Permission bookkeeping: which host permissions have been granted and
//! what is still missing. Probing and requesting the permissions is host
//! work and stays outside the library; this module only reasons over the
//! reported flags.

use vstd::prelude::*;

use crate::text;

verus! {

/// Handle for the application's permission management.
pub struct MacPermissions {
    pub app_bundle_id: String,
}

impl MacPermissions {
    pub fn new() -> (r: MacPermissions)
        ensures
            r.app_bundle_id@ == "com.bugspray.security"@,
    {
        MacPermissions { app_bundle_id: "com.bugspray.security".to_owned() }
    }
}

/// A snapshot of the granted permissions.
#[derive(Debug, Clone, Copy, PartialEq, Eq, Structural)]
pub struct PermissionStatus {
    pub full_disk_access: bool,
    pub accessibility: bool,
    pub sudo_available: bool,
}

/// The names of the permissions missing from the snapshot, in order.
pub open spec fn missing_spec(s: PermissionStatus) -> Seq<Seq<char>> {
    (if !s.full_disk_access {
        seq!["Full Disk Access"@]
    } else {
        Seq::empty()
    }) + (if !s.accessibility {
        seq!["Accessibility"@]
    } else {
        Seq::empty()
    })
}

/// The one-line summary of the snapshot.
pub open spec fn status_summary_spec(s: PermissionStatus) -> Seq<char> {
    if s.full_disk_access && s.accessibility {
        "\u{2705} All permissions granted - Bug Spray has full protection capabilities"@
    } else {
        "\u{26a0}\u{fe0f} Missing permissions: "@ + text::join_seqs(missing_spec(s), ", "@)
            + " - Some features may be limited"@
    }
}

impl PermissionStatus {
    /// Full protection needs both disk access and accessibility.
    pub fn is_fully_authorized(&self) -> (r: bool)
        ensures
            r == (self.full_disk_access && self.accessibility),
    {
        self.full_disk_access && self.accessibility
    }

    /// The names of the permissions still missing.
    pub fn missing_permissions(&self) -> (r: Vec<String>)
        ensures
            r.deep_view() == missing_spec(*self),
    {
        let mut missing: Vec<String> = Vec::new();
        if !self.full_disk_access {
            missing.push("Full Disk Access".to_owned());
        }
        if !self.accessibility {
            missing.push("Accessibility".to_owned());
        }
        proof {
            assert(missing.deep_view() =~~= missing_spec(*self));
        }
        missing
    }

    /// One line describing the snapshot.
    pub fn get_status_summary(&self) -> (r: String)
        ensures
            r@ == status_summary_spec(*self),
    {
        if self.is_fully_authorized() {
            return "\u{2705} All permissions granted - Bug Spray has full protection capabilities".to_owned();
        }
        let missing = self.missing_permissions();
        let mut out = "\u{26a0}\u{fe0f} Missing permissions: ".to_owned();
        let joined = text::join_with(&missing, ", ");
        out.append(joined.as_str());
        out.append(" - Some features may be limited");
        out
    }
}

} // verus!
