//! Configuration: development mode, subscription and licensing settings,
//! scanning toggles, and the predicate deciding which features are
//! unlocked.
//!
//! The settings themselves are plain values handed in by the hosting
//! application; nothing here reads the environment.

use vstd::prelude::*;

use crate::text;

verus! {

/// Subscription-management settings.
#[derive(Debug, Clone)]
pub struct StripeConfig {
    pub secret_key: Option<String>,
    pub price_id: Option<String>,
    pub enabled: bool,
}

/// License settings.
#[derive(Debug, Clone)]
pub struct LicenseConfig {
    pub public_key: Option<String>,
    pub token: Option<String>,
}

/// Scanning toggles and cadence.
#[derive(Debug, Clone, Copy, PartialEq, Eq, Structural)]
pub struct ScanningConfig {
    pub clipboard_monitoring: bool,
    pub malware_detection: bool,
    pub network_analysis: bool,
    pub file_integrity: bool,
    /// Scan interval in seconds.
    pub scan_interval: u64,
}

/// Which subscription-gated features are unlocked.
#[derive(Debug, Clone, Copy, PartialEq, Eq, Structural)]
pub struct SubscriptionFeatures {
    pub can_fix_issues: bool,
    pub advanced_analysis: bool,
    pub automated_remediation: bool,
    pub export_reports: bool,
}

/// The full configuration.
#[derive(Debug, Clone)]
pub struct CyberSecConfig {
    pub dev_mode: bool,
    pub stripe: StripeConfig,
    pub license: LicenseConfig,
    pub scanning: ScanningConfig,
    pub subscription_features: SubscriptionFeatures,
}

impl Default for StripeConfig {
    fn default() -> (r: StripeConfig)
        ensures
            r.secret_key is None,
            r.price_id is None,
            r.enabled,
    {
        StripeConfig { secret_key: None, price_id: None, enabled: true }
    }
}

impl Default for LicenseConfig {
    fn default() -> (r: LicenseConfig)
        ensures
            r.public_key is None,
            r.token is None,
    {
        LicenseConfig { public_key: None, token: None }
    }
}

impl Default for ScanningConfig {
    /// Network analysis is off by default; everything else is on, on a
    /// thirty-second cadence.
    fn default() -> (r: ScanningConfig)
        ensures
            r.clipboard_monitoring,
            r.malware_detection,
            !r.network_analysis,
            r.file_integrity,
            r.scan_interval == 30,
    {
        ScanningConfig {
            clipboard_monitoring: true,
            malware_detection: true,
            network_analysis: false,
            file_integrity: true,
            scan_interval: 30,
        }
    }
}

impl Default for SubscriptionFeatures {
    fn default() -> (r: SubscriptionFeatures)
        ensures
            !r.can_fix_issues,
            !r.advanced_analysis,
            !r.automated_remediation,
            !r.export_reports,
    {
        SubscriptionFeatures {
            can_fix_issues: false,
            advanced_analysis: false,
            automated_remediation: false,
            export_reports: false,
        }
    }
}

impl Default for CyberSecConfig {
    fn default() -> (r: CyberSecConfig)
        ensures
            !r.dev_mode,
            r.stripe.secret_key is None,
            r.stripe.price_id is None,
            r.stripe.enabled,
            r.license.public_key is None,
            r.license.token is None,
            r.scanning == (ScanningConfig {
                clipboard_monitoring: true,
                malware_detection: true,
                network_analysis: false,
                file_integrity: true,
                scan_interval: 30,
            }),
            r.subscription_features == (SubscriptionFeatures {
                can_fix_issues: false,
                advanced_analysis: false,
                automated_remediation: false,
                export_reports: false,
            }),
    {
        CyberSecConfig {
            dev_mode: false,
            stripe: StripeConfig::default(),
            license: LicenseConfig::default(),
            scanning: ScanningConfig::default(),
            subscription_features: SubscriptionFeatures::default(),
        }
    }
}

/// Development mode is requested when the setting, lower-cased, reads
/// "true".
pub open spec fn dev_mode_of(dev_mode_var: Option<String>) -> bool {
    match dev_mode_var {
        Some(v) => text::lower_seq(v@) == "true"@,
        None => false,
    }
}

impl CyberSecConfig {
    /// Builds the configuration from raw settings, as the hosting
    /// application read them. Development mode, or the presence of a
    /// license token, unlocks every subscription feature.
    pub fn from_settings(
        dev_mode_var: Option<String>,
        stripe_secret_key: Option<String>,
        stripe_price_id: Option<String>,
        license_public_key: Option<String>,
        license_token: Option<String>,
    ) -> (r: CyberSecConfig)
        ensures
            r.dev_mode == dev_mode_of(dev_mode_var),
            r.stripe.secret_key == stripe_secret_key,
            r.stripe.price_id == stripe_price_id,
            r.stripe.enabled,
            r.license.public_key == license_public_key,
            r.license.token == license_token,
            r.scanning == (ScanningConfig {
                clipboard_monitoring: true,
                malware_detection: true,
                network_analysis: false,
                file_integrity: true,
                scan_interval: 30,
            }),
            ({
                let unlocked = dev_mode_of(dev_mode_var) || license_token is Some;
                r.subscription_features == (SubscriptionFeatures {
                    can_fix_issues: unlocked,
                    advanced_analysis: unlocked,
                    automated_remediation: unlocked,
                    export_reports: unlocked,
                })
            }),
    {
        let dev_mode = match &dev_mode_var {
            Some(v) => {
                let lowered = text::to_ascii_lower(v.as_str());
                text::str_eq(lowered.as_str(), "true")
            },
            None => false,
        };
        let has_valid_subscription = dev_mode || license_token.is_some();
        CyberSecConfig {
            dev_mode,
            stripe: StripeConfig {
                secret_key: stripe_secret_key,
                price_id: stripe_price_id,
                enabled: true,
            },
            license: LicenseConfig { public_key: license_public_key, token: license_token },
            scanning: ScanningConfig::default(),
            subscription_features: SubscriptionFeatures {
                can_fix_issues: has_valid_subscription,
                advanced_analysis: has_valid_subscription,
                automated_remediation: has_valid_subscription,
                export_reports: has_valid_subscription,
            },
        }
    }

    /// The user is entitled to gated features: development mode, or a
    /// license token is present.
    pub fn has_active_subscription(&self) -> (r: bool)
        ensures
            r == (self.dev_mode || self.license.token is Some),
    {
        self.dev_mode || self.license.token.is_some()
    }

    /// Whether the named feature is available under this configuration.
    pub open spec fn feature_available_spec(self, feature: Seq<char>) -> bool {
        if self.dev_mode {
            true
        } else if feature == "fix_issues"@ {
            self.subscription_features.can_fix_issues
        } else if feature == "advanced_analysis"@ {
            self.subscription_features.advanced_analysis
        } else if feature == "automated_remediation"@ {
            self.subscription_features.automated_remediation
        } else if feature == "export_reports"@ {
            self.subscription_features.export_reports
        } else {
            false
        }
    }

    /// Decides whether the named feature is available: everything in
    /// development mode, otherwise the matching unlocked flag, and
    /// nothing for an unknown name.
    pub fn feature_available(&self, feature: &str) -> (r: bool)
        ensures
            r == self.feature_available_spec(feature@),
    {
        if self.dev_mode {
            return true;
        }
        if text::str_eq(feature, "fix_issues") {
            self.subscription_features.can_fix_issues
        } else if text::str_eq(feature, "advanced_analysis") {
            self.subscription_features.advanced_analysis
        } else if text::str_eq(feature, "automated_remediation") {
            self.subscription_features.automated_remediation
        } else if text::str_eq(feature, "export_reports") {
            self.subscription_features.export_reports
        } else {
            false
        }
    }

    /// The message shown for the named feature under this configuration.
    pub open spec fn subscription_message_spec(self, feature: Seq<char>) -> Seq<char> {
        if self.dev_mode || self.license.token is Some {
            "Feature available with your subscription."@
        } else if feature == "fix_issues"@ {
            "\u{1f512} Issue remediation requires a subscription. I can detect problems, but fixing them requires upgrading."@
        } else if feature == "advanced_analysis"@ {
            "\u{1f512} Advanced malware analysis requires a subscription. Basic detection is available."@
        } else if feature == "automated_remediation"@ {
            "\u{1f512} Automated remediation requires a subscription. Manual steps can be provided."@
        } else if feature == "export_reports"@ {
            "\u{1f512} Report export requires a subscription. View results in the terminal."@
        } else {
            "\u{1f512} This feature requires a subscription."@
        }
    }

    /// A user-facing note on what the named feature requires.
    pub fn subscription_message(&self, feature: &str) -> (r: String)
        ensures
            r@ == self.subscription_message_spec(feature@),
    {
        if self.has_active_subscription() {
            return "Feature available with your subscription.".to_owned();
        }
        if text::str_eq(feature, "fix_issues") {
            "\u{1f512} Issue remediation requires a subscription. I can detect problems, but fixing them requires upgrading.".to_owned()
        } else if text::str_eq(feature, "advanced_analysis") {
            "\u{1f512} Advanced malware analysis requires a subscription. Basic detection is available.".to_owned()
        } else if text::str_eq(feature, "automated_remediation") {
            "\u{1f512} Automated remediation requires a subscription. Manual steps can be provided.".to_owned()
        } else if text::str_eq(feature, "export_reports") {
            "\u{1f512} Report export requires a subscription. View results in the terminal.".to_owned()
        } else {
            "\u{1f512} This feature requires a subscription.".to_owned()
        }
    }
}

} // verus!
