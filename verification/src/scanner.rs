//! The threat-signature catalogue: Mac-focused malware signatures aimed at
//! crypto users, developers, and supply chains, with queries over the
//! catalogue. Running the signatures against a filesystem is host work and
//! stays outside the library.

use vstd::prelude::*;

verus! {

/// Who a signature's threat primarily targets.
#[derive(Debug, Clone, Copy, PartialEq, Eq, Structural)]
pub enum ThreatTarget {
    CryptoUsers,
    Developers,
    General,
    SupplyChain,
}

/// One known threat signature: an identifier, a display name, a search
/// pattern, a severity label, a description, and the targeted audience.
#[derive(Debug, Clone)]
pub struct ThreatSignature {
    pub id: String,
    pub name: String,
    pub pattern: String,
    pub severity: String,
    pub description: String,
    pub target_type: ThreatTarget,
}

/// The signature at position `i` of the catalogue has these identifier,
/// severity and target.
pub open spec fn catalogue_entry(i: int, s: ThreatSignature) -> bool {
    if i == 0 {
        s.id@ == "atomic_stealer_1"@ && s.severity@ == "Critical"@ && s.target_type
            == ThreatTarget::CryptoUsers
    } else if i == 1 {
        s.id@ == "atomic_stealer_2"@ && s.severity@ == "Critical"@ && s.target_type
            == ThreatTarget::CryptoUsers
    } else if i == 2 {
        s.id@ == "rustbucket_1"@ && s.severity@ == "Critical"@ && s.target_type
            == ThreatTarget::Developers
    } else if i == 3 {
        s.id@ == "kandykorn_1"@ && s.severity@ == "Critical"@ && s.target_type
            == ThreatTarget::CryptoUsers
    } else if i == 4 {
        s.id@ == "xcsset_1"@ && s.severity@ == "High"@ && s.target_type == ThreatTarget::Developers
    } else if i == 5 {
        s.id@ == "crypto_clipper_1"@ && s.severity@ == "High"@ && s.target_type
            == ThreatTarget::CryptoUsers
    } else if i == 6 {
        s.id@ == "fake_crypto_app_1"@ && s.severity@ == "High"@ && s.target_type
            == ThreatTarget::CryptoUsers
    } else if i == 7 {
        s.id@ == "npm_compromise_1"@ && s.severity@ == "High"@ && s.target_type
            == ThreatTarget::Developers
    } else if i == 8 {
        s.id@ == "github_token_theft"@ && s.severity@ == "High"@ && s.target_type
            == ThreatTarget::Developers
    } else if i == 9 {
        s.id@ == "fake_xcode_1"@ && s.severity@ == "High"@ && s.target_type
            == ThreatTarget::Developers
    } else if i == 10 {
        s.id@ == "launchagent_persist_1"@ && s.severity@ == "Medium"@ && s.target_type
            == ThreatTarget::General
    } else if i == 11 {
        s.id@ == "homebrew_compromise_1"@ && s.severity@ == "High"@ && s.target_type
            == ThreatTarget::SupplyChain
    } else if i == 12 {
        s.id@ == "browser_ext_malware_1"@ && s.severity@ == "High"@ && s.target_type
            == ThreatTarget::CryptoUsers
    } else if i == 13 {
        s.id@ == "suspicious_network_1"@ && s.severity@ == "High"@ && s.target_type
            == ThreatTarget::General
    } else {
        false
    }
}

/// Signatures in `s` whose target is `t`, in order.
pub open spec fn filter_target(s: Seq<ThreatSignature>, t: ThreatTarget) -> Seq<ThreatSignature>
    decreases s.len(),
{
    if s.len() == 0 {
        Seq::empty()
    } else if s.last().target_type == t {
        filter_target(s.drop_last(), t).push(s.last())
    } else {
        filter_target(s.drop_last(), t)
    }
}

/// The scanner: the signature catalogue plus the time of the last scan.
pub struct ThreatScanner {
    pub signatures: Vec<ThreatSignature>,
    /// Milliseconds since the Unix epoch, if a scan has run.
    pub last_scan: Option<u64>,
}

impl ThreatScanner {
    pub fn new() -> (r: ThreatScanner)
        ensures
            r.signatures@.len() == 14,
            forall|i: int| 0 <= i < r.signatures@.len() ==> catalogue_entry(i, r.signatures@[i]),
            r.last_scan is None,
    {
        ThreatScanner { signatures: ThreatScanner::load_mac_threat_signatures(), last_scan: None }
    }

    /// The built-in catalogue of Mac threat signatures, aimed at crypto
    /// users, developers, and supply chains.
    pub fn load_mac_threat_signatures() -> (r: Vec<ThreatSignature>)
        ensures
            r@.len() == 14,
            forall|i: int| 0 <= i < r@.len() ==> catalogue_entry(i, r@[i]),
    {
        let mut sigs: Vec<ThreatSignature> = Vec::new();
        sigs.push(ThreatSignature {
            id: "atomic_stealer_1".to_owned(),
            name: "AtomicStealer (Crypto Wallet Theft)".to_owned(),
            pattern: "(~/Library/Application Support/(Electrum|Exodus|MetaMask|Coinbase Wallet|Trust Wallet))".to_owned(),
            severity: "Critical".to_owned(),
            description: "AtomicStealer malware targeting cryptocurrency wallets on macOS".to_owned(),
            target_type: ThreatTarget::CryptoUsers,
        });
        sigs.push(ThreatSignature {
            id: "atomic_stealer_2".to_owned(),
            name: "AtomicStealer (Browser Data)".to_owned(),
            pattern: "(Login Data|Cookies|Web Data|History).*chrome.*keychain".to_owned(),
            severity: "Critical".to_owned(),
            description: "AtomicStealer targeting browser stored credentials and crypto extensions".to_owned(),
            target_type: ThreatTarget::CryptoUsers,
        });
        sigs.push(ThreatSignature {
            id: "rustbucket_1".to_owned(),
            name: "RustBucket (Developer Targeting)".to_owned(),
            pattern: "(\\.app/Contents/MacOS/.*rust|lazarus.*group|DPRK.*malware)".to_owned(),
            severity: "Critical".to_owned(),
            description: "RustBucket malware by Lazarus Group targeting macOS developers".to_owned(),
            target_type: ThreatTarget::Developers,
        });
        sigs.push(ThreatSignature {
            id: "kandykorn_1".to_owned(),
            name: "KandyKorn (Fake Updates)".to_owned(),
            pattern: "(kandykorn|Discord.*fake.*update|3CX.*supply.*chain|trading.*bot.*fake)".to_owned(),
            severity: "Critical".to_owned(),
            description: "KandyKorn malware distributed through fake Discord and trading app updates".to_owned(),
            target_type: ThreatTarget::CryptoUsers,
        });
        sigs.push(ThreatSignature {
            id: "xcsset_1".to_owned(),
            name: "XCSSET (Xcode Project Infection)".to_owned(),
            pattern: "(XCSSET|\\.xcodeproj.*malicious|DerivedData.*inject|Xcode.*backdoor)".to_owned(),
            severity: "High".to_owned(),
            description: "XCSSET malware infecting Xcode projects to steal developer credentials".to_owned(),
            target_type: ThreatTarget::Developers,
        });
        sigs.push(ThreatSignature {
            id: "crypto_clipper_1".to_owned(),
            name: "Cryptocurrency Clipboard Hijacker".to_owned(),
            pattern: "(NSPasteboard.*crypto|clipboard.*bitcoin|wallet.*address.*replace|crypto.*stealer)".to_owned(),
            severity: "High".to_owned(),
            description: "Malware that replaces cryptocurrency addresses in clipboard".to_owned(),
            target_type: ThreatTarget::CryptoUsers,
        });
        sigs.push(ThreatSignature {
            id: "fake_crypto_app_1".to_owned(),
            name: "Fake Cryptocurrency Application".to_owned(),
            pattern: "(fake.*metamask\\.app|bogus.*wallet\\.app|trojan.*crypto.*bundle|phishing.*wallet)".to_owned(),
            severity: "High".to_owned(),
            description: "Fake cryptocurrency wallet application designed to steal private keys".to_owned(),
            target_type: ThreatTarget::CryptoUsers,
        });
        sigs.push(ThreatSignature {
            id: "npm_compromise_1".to_owned(),
            name: "Malicious NPM Package".to_owned(),
            pattern: "(npm.*install.*malicious|node_modules.*stealer|package\\.json.*backdoor|typosquatting)".to_owned(),
            severity: "High".to_owned(),
            description: "Compromised or malicious NPM package targeting developers".to_owned(),
            target_type: ThreatTarget::Developers,
        });
        sigs.push(ThreatSignature {
            id: "github_token_theft".to_owned(),
            name: "GitHub Token Stealer".to_owned(),
            pattern: "(gh[ps]_[a-zA-Z0-9]{36}|GITHUB_TOKEN.*steal|\\.git.*credentials.*extract)".to_owned(),
            severity: "High".to_owned(),
            description: "Malware attempting to steal GitHub personal access tokens".to_owned(),
            target_type: ThreatTarget::Developers,
        });
        sigs.push(ThreatSignature {
            id: "fake_xcode_1".to_owned(),
            name: "Fake Xcode Installer".to_owned(),
            pattern: "(Xcode.*\\.dmg.*trojan|fake.*apple.*developer|malicious.*xcode.*installer)".to_owned(),
            severity: "High".to_owned(),
            description: "Fake Xcode installer containing malware targeting iOS developers".to_owned(),
            target_type: ThreatTarget::Developers,
        });
        sigs.push(ThreatSignature {
            id: "launchagent_persist_1".to_owned(),
            name: "Malicious LaunchAgent".to_owned(),
            pattern: "(~/Library/LaunchAgents/.*malicious|com\\.malware\\..*.plist|persistence.*launchd)".to_owned(),
            severity: "Medium".to_owned(),
            description: "Malware using macOS LaunchAgent for persistence".to_owned(),
            target_type: ThreatTarget::General,
        });
        sigs.push(ThreatSignature {
            id: "homebrew_compromise_1".to_owned(),
            name: "Homebrew Package Compromise".to_owned(),
            pattern: "(brew.*install.*malicious|homebrew.*package.*backdoor|/usr/local/bin/.*trojan)".to_owned(),
            severity: "High".to_owned(),
            description: "Compromised Homebrew package containing malware".to_owned(),
            target_type: ThreatTarget::SupplyChain,
        });
        sigs.push(ThreatSignature {
            id: "browser_ext_malware_1".to_owned(),
            name: "Malicious Browser Extension".to_owned(),
            pattern: "(chrome.*extension.*steal|safari.*extension.*crypto|browser.*wallet.*hijack|extension.*phishing)".to_owned(),
            severity: "High".to_owned(),
            description: "Malicious browser extension targeting cryptocurrency wallets and credentials".to_owned(),
            target_type: ThreatTarget::CryptoUsers,
        });
        sigs.push(ThreatSignature {
            id: "suspicious_network_1".to_owned(),
            name: "Suspicious Network Activity".to_owned(),
            pattern: "(nc.*-e.*bash|curl.*pipe.*bash|wget.*execute|python.*-c.*socket.*reverse)".to_owned(),
            severity: "High".to_owned(),
            description: "Suspicious network activity indicating potential remote access trojan".to_owned(),
            target_type: ThreatTarget::General,
        });
        sigs
    }

    /// A zeroed tally of findings per severity label.
    pub fn get_threat_count_by_severity(&self) -> (r: Vec<(String, usize)>)
        ensures
            r@.len() == 4,
            r@[0].0@ == "Critical"@ && r@[0].1 == 0,
            r@[1].0@ == "High"@ && r@[1].1 == 0,
            r@[2].0@ == "Medium"@ && r@[2].1 == 0,
            r@[3].0@ == "Low"@ && r@[3].1 == 0,
    {
        let mut counts: Vec<(String, usize)> = Vec::new();
        counts.push(("Critical".to_owned(), 0));
        counts.push(("High".to_owned(), 0));
        counts.push(("Medium".to_owned(), 0));
        counts.push(("Low".to_owned(), 0));
        counts
    }

    /// The signatures aimed at the given audience, in catalogue order.
    pub fn get_signatures_by_target(&self, target: &ThreatTarget) -> (r: Vec<&ThreatSignature>)
        ensures
            r@.map_values(|s: &ThreatSignature| *s) == filter_target(self.signatures@, *target),
    {
        let mut out: Vec<&ThreatSignature> = Vec::new();
        let n: usize = self.signatures.len();
        let mut i: usize = 0;
        while i < n
            invariant
                n == self.signatures@.len(),
                i <= n,
                out@.map_values(|s: &ThreatSignature| *s) == filter_target(
                    self.signatures@.take(i as int),
                    *target,
                ),
            decreases n - i,
        {
            proof {
                assert(self.signatures@.take(i + 1).drop_last() =~= self.signatures@.take(i as int));
            }
            let matches_target = match (&self.signatures[i].target_type, target) {
                (ThreatTarget::CryptoUsers, ThreatTarget::CryptoUsers) => true,
                (ThreatTarget::Developers, ThreatTarget::Developers) => true,
                (ThreatTarget::General, ThreatTarget::General) => true,
                (ThreatTarget::SupplyChain, ThreatTarget::SupplyChain) => true,
                _ => false,
            };
            if matches_target {
                out.push(&self.signatures[i]);
            }
            proof {
                assert(out@.map_values(|s: &ThreatSignature| *s) =~= filter_target(
                    self.signatures@.take(i + 1),
                    *target,
                ));
            }
            i = i + 1;
        }
        proof {
            assert(self.signatures@.take(n as int) =~= self.signatures@);
        }
        out
    }
}

} // verus!
