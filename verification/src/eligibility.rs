//! Read-only MCU update eligibility and revision comparison.
use vstd::prelude::*;

use crate::moonraker::Mcu;
use crate::text;

verus! {

/// Minimum Klipper version required to reliably report `mcu_kconfig`.
pub const KLIPPER_MINIMUM_VERSION: &'static str = "v0.13.0-753-g8c29c0a8e";

/// Minimum Kalico version required to reliably report `mcu_kconfig`.
pub const KALICO_MINIMUM_VERSION: &'static str = "v2026.09.00-3-g6127720c4";

/// Whether this updater may manage a discovered MCU.
#[derive(Clone, Debug, PartialEq, Eq)]
pub enum Eligibility {
    /// A Klipper-family MCU with the embedded configuration required to build it.
    Eligible,
    /// Firmware managed by another project, named as Moonraker reported it (e.g. "Beacon").
    ExternallyManaged(String),
    /// Legacy or unidentified Klipper-family firmware without required updater metadata.
    Unsupported(UnsupportedReason),
}

/// The Klipper-family firmware a version requirement applies to.
#[derive(Clone, Copy, Debug, PartialEq, Eq, Structural)]
pub enum FirmwareKind {
    /// Klipper itself.
    Klipper,
    /// The Kalico fork.
    Kalico,
}

impl FirmwareKind {
    /// The firmware's name.
    pub open spec fn text(self) -> Seq<char> {
        match self {
            FirmwareKind::Klipper => "Klipper"@,
            FirmwareKind::Kalico => "Kalico"@,
        }
    }

    /// The firmware's name.
    pub fn name(self) -> (name: &'static str)
        ensures
            name@ == self.text(),
    {
        match self {
            FirmwareKind::Klipper => "Klipper",
            FirmwareKind::Kalico => "Kalico",
        }
    }
}

/// Why a Klipper-family MCU is not eligible for management.
#[derive(Clone, Debug, PartialEq, Eq)]
pub enum UnsupportedReason {
    /// The MCU is recent enough but reported no embedded Kconfig.
    NoEmbeddedConfig,
    /// The MCU's running firmware predates the minimum version required to report `mcu_kconfig`.
    VersionTooOld {
        /// The firmware that the requirement applies to.
        firmware: FirmwareKind,
        /// The version that runs.
        running: String,
        /// The version that is required.
        minimum: &'static str,
    },
}

impl UnsupportedReason {
    /// The wording of this reason.
    pub open spec fn text(self) -> Seq<char> {
        match self {
            UnsupportedReason::NoEmbeddedConfig => "no embedded configuration found"@,
            UnsupportedReason::VersionTooOld { firmware, running, minimum } => firmware.text()
                + " version too old ("@ + running@ + " < "@ + minimum@ + ")"@,
        }
    }

    /// The wording of this reason.
    pub fn message(&self) -> (message: String)
        ensures
            message@ == self.text(),
    {
        match self {
            UnsupportedReason::NoEmbeddedConfig => "no embedded configuration found".to_owned(),
            UnsupportedReason::VersionTooOld { firmware, running, minimum } => {
                let mut message: String = firmware.name().to_owned();
                message.append(" version too old (");
                message.append(running.as_str());
                message.append(" < ");
                message.append(*minimum);
                message.append(")");
                message
            },
        }
    }
}

/// An eligibility by its characters.
pub enum Standing {
    Eligible,
    ExternallyManaged(Seq<char>),
    NoEmbeddedConfig,
    VersionTooOld { firmware: FirmwareKind, running: Seq<char>, minimum: Seq<char> },
}

impl View for Eligibility {
    type V = Standing;

    open spec fn view(&self) -> Standing {
        match *self {
            Eligibility::Eligible => Standing::Eligible,
            Eligibility::ExternallyManaged(name) => Standing::ExternallyManaged(name@),
            Eligibility::Unsupported(UnsupportedReason::NoEmbeddedConfig) =>
            Standing::NoEmbeddedConfig,
            Eligibility::Unsupported(
                UnsupportedReason::VersionTooOld { firmware, running, minimum },
            ) => Standing::VersionTooOld { firmware, running: running@, minimum: minimum@ },
        }
    }
}

/// The comparison result for one eligible MCU.
#[derive(Clone, Copy, Debug, PartialEq, Eq, Structural)]
pub enum RevisionStatus {
    /// The running firmware revision equals the selected checkout revision.
    Current,
    /// The known running and checkout revisions differ.
    UpdateRequired,
    /// One or both revisions cannot safely be compared.
    Indeterminate,
}

/// A selected Klipper checkout revision suitable for comparison.
#[derive(Debug, PartialEq, Eq)]
pub enum CheckoutRevision {
    /// A clean, comparable checkout revision.
    Known(String),
    /// The checkout cannot safely be compared to a running MCU.
    Indeterminate,
}

impl Clone for CheckoutRevision {
    fn clone(&self) -> (copy: Self)
        ensures
            copy == *self,
    {
        match self {
            CheckoutRevision::Known(revision) => CheckoutRevision::Known(revision.clone()),
            CheckoutRevision::Indeterminate => CheckoutRevision::Indeterminate,
        }
    }
}

/// Read-only eligibility and revision result for one MCU.
#[derive(Clone, Debug, PartialEq, Eq)]
pub struct McuStatus {
    /// Whether the updater may manage this MCU.
    pub eligibility: Eligibility,
    /// Revision state when the MCU is eligible.
    pub revision: Option<RevisionStatus>,
}

/// Policy controlling which eligible MCUs may be offered for update.
#[derive(Clone, Debug, PartialEq, Eq)]
pub enum UpdateSelection {
    /// Offer only known out-of-date MCUs.
    Required,
    /// Offer one named eligible MCU regardless of revision state.
    Force(String),
    /// Offer every eligible MCU regardless of revision state.
    All,
}

/// A `git describe` version, ordered by its tag first and by the commits since the tag last.
pub struct DescribedVersion {
    pub major: nat,
    pub minor: nat,
    pub patch: nat,
    pub commits: nat,
}

/// The version that a `git describe --tags --long` text states:
/// `vMAJOR.MINOR.PATCH[-COMMITS[-gHASH]]`.
pub open spec fn described_version(version: Seq<char>) -> Option<DescribedVersion> {
    let rest = version.skip(1);
    let (core, commits) = match text::divided(rest, "-"@) {
        Some((core, tail)) => (
            core,
            match text::divided(tail, "-"@) {
                Some((commits, _)) => commits,
                None => tail,
            },
        ),
        None => (rest, "0"@),
    };
    if version.len() == 0 || version[0] != 'v' {
        None
    } else {
        match text::divided(core, "."@) {
            None => None,
            Some((major, after_major)) => match text::divided(after_major, "."@) {
                None => None,
                Some((minor, patch)) => match (
                    number(major),
                    number(minor),
                    number(patch),
                    number(commits),
                ) {
                    (Some(major), Some(minor), Some(patch), Some(commits)) => Some(
                        DescribedVersion { major, minor, patch, commits },
                    ),
                    _ => None,
                },
            },
        }
    }
}

/// The 32-bit number that a text writes in decimal.
pub open spec fn number(s: Seq<char>) -> Option<nat> {
    text::parsed_unsigned(s, 10, u32::MAX as nat)
}

/// Whether one version is older than another.
pub open spec fn older(left: DescribedVersion, right: DescribedVersion) -> bool {
    if left.major != right.major {
        left.major < right.major
    } else if left.minor != right.minor {
        left.minor < right.minor
    } else if left.patch != right.patch {
        left.patch < right.patch
    } else {
        left.commits < right.commits
    }
}

#[derive(Clone, Copy)]
struct ParsedVersion {
    major: u32,
    minor: u32,
    patch: u32,
    commits: u32,
}

impl ParsedVersion {
    spec fn described(self) -> DescribedVersion {
        DescribedVersion {
            major: self.major as nat,
            minor: self.minor as nat,
            patch: self.patch as nat,
            commits: self.commits as nat,
        }
    }

    fn is_older(self, other: ParsedVersion) -> (result: bool)
        ensures
            result == older(self.described(), other.described()),
    {
        if self.major != other.major {
            self.major < other.major
        } else if self.minor != other.minor {
            self.minor < other.minor
        } else if self.patch != other.patch {
            self.patch < other.patch
        } else {
            self.commits < other.commits
        }
    }
}

fn parse_number(text: &str) -> (value: Option<u32>)
    ensures
        match value {
            Some(value) => number(text@) == Some(value as nat),
            None => number(text@) is None,
        },
{
    match text::parse_unsigned(text, 10, u32::MAX as u64) {
        Some(value) => Some(value as u32),
        None => None,
    }
}

fn parse_git_describe(version: &str) -> (parsed: Option<ParsedVersion>)
    ensures
        match parsed {
            Some(parsed) => described_version(version@) == Some(parsed.described()),
            None => described_version(version@) is None,
        },
{
    let length: usize = version.unicode_len();
    if length == 0 || version.get_char(0) != 'v' {
        return None;
    }
    let rest: &str = version.substring_char(1, length);
    assert(rest@ =~= version@.skip(1));
    let (core, commits) = match text::split_once(rest, "-") {
        Some((core, tail)) => match text::split_once(tail, "-") {
            Some((commits, _)) => (core, commits),
            None => (core, tail),
        },
        None => (rest, "0"),
    };
    let (major, after_major) = match text::split_once(core, ".") {
        Some(parts) => parts,
        None => {
            return None;
        },
    };
    let (minor, patch) = match text::split_once(after_major, ".") {
        Some(parts) => parts,
        None => {
            return None;
        },
    };
    match (parse_number(major), parse_number(minor), parse_number(patch), parse_number(commits)) {
        (Some(major), Some(minor), Some(patch), Some(commits)) => Some(
            ParsedVersion { major, minor, patch, commits },
        ),
        _ => None,
    }
}

/// Whether a text is a build time as Klipper writes it: eight digits, an underscore, six digits.
pub open spec fn build_timestamp(s: Seq<char>) -> bool {
    &&& s.len() == 15
    &&& s[8] == '_'
    &&& forall|i: int| 0 <= i < 15 && i != 8 ==> '0' <= #[trigger] s[i] <= '9'
}

fn is_klipper_build_timestamp(candidate: &str) -> (result: bool)
    ensures
        result == build_timestamp(candidate@),
{
    let chars: Vec<char> = text::chars_of(candidate);
    if chars.len() != 15 || chars[8] != '_' {
        return false;
    }
    let mut i: usize = 0;
    while i < 15
        invariant
            i <= 15,
            chars@.len() == 15,
            chars@ == candidate@,
            forall|k: int| 0 <= k < i && k != 8 ==> '0' <= #[trigger] chars@[k] <= '9',
        decreases 15 - i,
    {
        if i != 8 && !('0' <= chars[i] && chars[i] <= '9') {
            return false;
        }
        i += 1;
    }
    true
}

/// A revision without the suffix that a build of a modified tree leaves in it, if it has one:
/// `-dirty-<time>-<host>`.
pub open spec fn without_build_suffix(revision: Seq<char>) -> Option<Seq<char>> {
    match text::divided(revision, "-dirty-"@) {
        None => None,
        Some((base, rest)) => match text::divided(rest, "-"@) {
            None => None,
            Some((timestamp, hostname)) => if build_timestamp(timestamp) && hostname.len() > 0 {
                Some(base)
            } else {
                None
            },
        },
    }
}

/// A revision without its dirty suffix, and whether it had one.
pub open spec fn split_dirty(revision: Seq<char>) -> (Seq<char>, bool) {
    match without_build_suffix(revision) {
        Some(base) => (base, true),
        None => if "-dirty"@.is_suffix_of(revision) {
            (revision.take(revision.len() - "-dirty"@.len()), true)
        } else {
            (revision, false)
        },
    }
}

fn strip_dirty_build_suffix<'a>(revision: &'a str) -> (base: Option<&'a str>)
    ensures
        match base {
            Some(base) => without_build_suffix(revision@) == Some(base@),
            None => without_build_suffix(revision@) is None,
        },
{
    match text::split_once(revision, "-dirty-") {
        Some((base, rest)) => match text::split_once(rest, "-") {
            Some((timestamp, hostname)) => if is_klipper_build_timestamp(timestamp)
                && hostname.unicode_len() > 0 {
                Some(base)
            } else {
                None
            },
            None => None,
        },
        None => None,
    }
}

fn split_dirty_suffix<'a>(revision: &'a str) -> (parts: (&'a str, bool))
    ensures
        (parts.0@, parts.1) == split_dirty(revision@),
{
    if let Some(base) = strip_dirty_build_suffix(revision) {
        return (base, true);
    }
    if text::ends_with(revision, "-dirty") {
        let suffix: usize = "-dirty".unicode_len();
        let length: usize = revision.unicode_len();
        let base: &'a str = revision.substring_char(0, length - suffix);
        assert(base@ =~= revision@.take(revision@.len() - "-dirty"@.len()));
        (base, true)
    } else {
        (revision, false)
    }
}

/// Whether two revisions name the same commit: both clean or both dirty, and one an abbreviation of
/// the other.
pub open spec fn same_revision(running: Seq<char>, selected: Seq<char>) -> bool {
    let (running_base, running_dirty) = split_dirty(running);
    let (selected_base, selected_dirty) = split_dirty(selected);
    running_dirty == selected_dirty && (running_base.is_prefix_of(selected_base)
        || selected_base.is_prefix_of(running_base))
}

/// Compares a running firmware version against a selected checkout revision.
///
/// The two sides may embed the commit hash at different abbreviation lengths:
/// `selected` and `running` (Klipper's own build) are computed by separate `git
/// describe` invocations, possibly with different git versions, so an exact
/// string match would spuriously report an up-to-date MCU as needing an update.
/// Any abbreviation of the same commit hash is a prefix of any longer one, so
/// tolerate a length difference in the hash by comparing prefixes instead.
pub fn revisions_match(running: &str, selected: &str) -> (result: bool)
    ensures
        result == same_revision(running@, selected@),
{
    let (running_base, running_dirty) = split_dirty_suffix(running);
    let (selected_base, selected_dirty) = split_dirty_suffix(selected);
    if running_dirty != selected_dirty {
        return false;
    }
    text::starts_with(selected_base, running_base) || text::starts_with(running_base, selected_base)
}

/// Whether a version looks like a `git describe` of a version tag.
pub open spec fn version_tagged(version: Seq<char>) -> bool {
    version.len() >= 2 && (version[0] == 'v' || version[0] == 'V') && '0' <= version[1] <= '9'
}

fn looks_like_git_describe(version: &str) -> (result: bool)
    ensures
        result == version_tagged(version@),
{
    if version.unicode_len() < 2 {
        return false;
    }
    let first: char = version.get_char(0);
    let second: char = version.get_char(1);
    (first == 'v' || first == 'V') && '0' <= second && second <= '9'
}

/// The standing of firmware that belongs to the Klipper family.
pub open spec fn standing_by_config(mcu: Mcu) -> Standing {
    if text::trimmed(mcu.kconfig@).len() == 0 {
        Standing::NoEmbeddedConfig
    } else {
        Standing::Eligible
    }
}

/// The standing of firmware of a known kind: its version must reach the minimum, where both can be
/// read, and it must embed its configuration.
pub open spec fn standing_of_kind(mcu: Mcu, firmware: FirmwareKind, minimum: Seq<char>) -> Standing {
    match mcu.version {
        Some(running) => match (described_version(running@), described_version(minimum)) {
            (Some(found), Some(required)) if older(found, required) => Standing::VersionTooOld {
                firmware,
                running: running@,
                minimum,
            },
            _ => standing_by_config(mcu),
        },
        None => standing_by_config(mcu),
    }
}

/// The standing of firmware that does not name itself: the first word of a version that is no
/// version tag names another project.
pub open spec fn standing_unidentified(mcu: Mcu) -> Standing {
    match mcu.version {
        Some(version) => match text::first_word(version@) {
            Some((name, _)) if !version_tagged(version@) => Standing::ExternallyManaged(name),
            _ => standing_by_config(mcu),
        },
        None => standing_by_config(mcu),
    }
}

/// The name that the firmware gives itself, without surrounding white space; a blank one counts as
/// absent.
pub open spec fn own_name(mcu: Mcu) -> Option<Seq<char>> {
    match mcu.app {
        Some(app) => if text::trimmed(app@).len() > 0 {
            Some(text::trimmed(app@))
        } else {
            None
        },
        None => None,
    }
}

/// Whether this updater may manage an MCU, and why not.
pub open spec fn standing(mcu: Mcu) -> Standing {
    match own_name(mcu) {
        Some(app) => if text::same_ignoring_case(app, "klipper"@) {
            standing_of_kind(mcu, FirmwareKind::Klipper, KLIPPER_MINIMUM_VERSION@)
        } else if text::same_ignoring_case(app, "kalico"@) {
            standing_of_kind(mcu, FirmwareKind::Kalico, KALICO_MINIMUM_VERSION@)
        } else {
            Standing::ExternallyManaged(app)
        },
        None => standing_unidentified(mcu),
    }
}

fn classify_by_embedded_config(mcu: &Mcu) -> (eligibility: Eligibility)
    ensures
        eligibility@ == standing_by_config(*mcu),
{
    if text::trim(mcu.kconfig.as_str()).unicode_len() == 0 {
        Eligibility::Unsupported(UnsupportedReason::NoEmbeddedConfig)
    } else {
        Eligibility::Eligible
    }
}

fn classify_known_firmware(
    mcu: &Mcu,
    firmware: FirmwareKind,
    minimum_version: &'static str,
) -> (eligibility: Eligibility)
    ensures
        eligibility@ == standing_of_kind(*mcu, firmware, minimum_version@),
{
    if let Some(running) = &mcu.version {
        if let Some(found) = parse_git_describe(running.as_str()) {
            if let Some(required) = parse_git_describe(minimum_version) {
                if found.is_older(required) {
                    return Eligibility::Unsupported(
                        UnsupportedReason::VersionTooOld {
                            firmware,
                            running: running.clone(),
                            minimum: minimum_version,
                        },
                    );
                }
            }
        }
    }
    classify_by_embedded_config(mcu)
}

/// Classifies an MCU that reported no usable `app` name.
///
/// Firmware that doesn't identify itself via `app` (e.g. Beacon) still names itself as the
/// leading word of `mcu_version` (e.g. `"Beacon 2.1.0"`), unlike Klipper/Kalico's own
/// `git describe`-shaped version (`vMAJOR.MINOR.PATCH-COMMITS-gHASH`). Use that name when
/// present; otherwise fall back to the embedded-config check used for genuinely unidentified
/// legacy firmware.
fn classify_unidentified(mcu: &Mcu) -> (eligibility: Eligibility)
    ensures
        eligibility@ == standing_unidentified(*mcu),
{
    if let Some(version) = &mcu.version {
        if !looks_like_git_describe(version.as_str()) {
            if let Some((name, _)) = text::split_word(version.as_str()) {
                return Eligibility::ExternallyManaged(name.to_owned());
            }
        }
    }
    classify_by_embedded_config(mcu)
}

/// Classifies eligibility without inferring from MCU family or transport.
///
/// Real Klipper and Kalico always populate `app`; third-party firmware such as Beacon
/// reports it as an empty string instead of omitting it, so blank is the same as absent.
pub fn classify_mcu(mcu: &Mcu) -> (eligibility: Eligibility)
    ensures
        eligibility@ == standing(*mcu),
{
    if let Some(app) = &mcu.app {
        let app: &str = text::trim(app.as_str());
        if app.unicode_len() > 0 {
            return if text::eq_ignore_case(app, "klipper") {
                classify_known_firmware(mcu, FirmwareKind::Klipper, KLIPPER_MINIMUM_VERSION)
            } else if text::eq_ignore_case(app, "kalico") {
                classify_known_firmware(mcu, FirmwareKind::Kalico, KALICO_MINIMUM_VERSION)
            } else {
                Eligibility::ExternallyManaged(app.to_owned())
            };
        }
    }
    classify_unidentified(mcu)
}

/// How an eligible MCU's running revision compares to the checkout's.
pub open spec fn revision_status(mcu: Mcu, checkout: CheckoutRevision) -> RevisionStatus {
    match (mcu.version, checkout) {
        (Some(running), CheckoutRevision::Known(selected)) => if same_revision(
            running@,
            selected@,
        ) {
            RevisionStatus::Current
        } else {
            RevisionStatus::UpdateRequired
        },
        _ => RevisionStatus::Indeterminate,
    }
}

/// Classifies one MCU and compares its revision when eligible.
pub fn assess_mcu(mcu: &Mcu, checkout: &CheckoutRevision) -> (status: McuStatus)
    ensures
        status.eligibility@ == standing(*mcu),
        status.revision == if standing(*mcu) is Eligible {
            Some(revision_status(*mcu, *checkout))
        } else {
            None
        },
{
    let eligibility: Eligibility = classify_mcu(mcu);
    let revision: Option<RevisionStatus> = match &eligibility {
        Eligibility::Eligible => match (&mcu.version, checkout) {
            (Some(running), CheckoutRevision::Known(selected)) => if revisions_match(
                running.as_str(),
                selected.as_str(),
            ) {
                Some(RevisionStatus::Current)
            } else {
                Some(RevisionStatus::UpdateRequired)
            },
            _ => Some(RevisionStatus::Indeterminate),
        },
        _ => None,
    };
    McuStatus { eligibility, revision }
}

/// Whether an MCU is offered under a selection: it must be eligible, and out of date, named or
/// neither, as the selection says.
pub open spec fn selected(mcu: Mcu, checkout: CheckoutRevision, selection: UpdateSelection) -> bool {
    standing(mcu) is Eligible && match selection {
        UpdateSelection::Required => revision_status(mcu, checkout)
            == RevisionStatus::UpdateRequired,
        UpdateSelection::Force(name) => mcu.name@ == name@,
        UpdateSelection::All => true,
    }
}

/// Returns whether one MCU is eligible for the requested update selection.
pub fn is_selected(mcu: &Mcu, checkout: &CheckoutRevision, selection: &UpdateSelection) -> (result:
    bool)
    ensures
        result == selected(*mcu, *checkout, *selection),
{
    let status: McuStatus = assess_mcu(mcu, checkout);
    match &status.eligibility {
        Eligibility::Eligible => match selection {
            UpdateSelection::Required => matches!(
                status.revision,
                Some(RevisionStatus::UpdateRequired)
            ),
            UpdateSelection::Force(name) => text::same_text(mcu.name.as_str(), name.as_str()),
            UpdateSelection::All => true,
        },
        _ => false,
    }
}

/// No selection ever offers legacy firmware or firmware of another project.
pub proof fn law_only_eligible_mcus_are_selected(
    mcu: Mcu,
    checkout: CheckoutRevision,
    selection: UpdateSelection,
)
    requires
        !(standing(mcu) is Eligible),
    ensures
        !selected(mcu, checkout, selection),
{
}

/// Whatever is offered as out of date is also offered when everything is.
pub proof fn law_required_is_part_of_all(mcu: Mcu, checkout: CheckoutRevision)
    requires
        selected(mcu, checkout, UpdateSelection::Required),
    ensures
        selected(mcu, checkout, UpdateSelection::All),
{
}

/// Nothing counts as out of date against a checkout whose revision is not known.
pub proof fn law_unknown_checkout_requires_nothing(mcu: Mcu)
    ensures
        !selected(mcu, CheckoutRevision::Indeterminate, UpdateSelection::Required),
{
}

/// Comparing revisions does not depend on which of the two is which.
pub proof fn law_revision_match_is_symmetric(left: Seq<char>, right: Seq<char>)
    ensures
        same_revision(left, right) == same_revision(right, left),
{
}

/// Every revision matches itself.
pub proof fn law_revision_matches_itself(revision: Seq<char>)
    ensures
        same_revision(revision, revision),
{
    assert(split_dirty(revision).0.is_prefix_of(split_dirty(revision).0));
}

/// A clean revision never matches a dirty one.
pub proof fn law_dirty_never_matches_clean(left: Seq<char>, right: Seq<char>)
    requires
        split_dirty(left).1 != split_dirty(right).1,
    ensures
        !same_revision(left, right),
{
}

/// A clean revision matches every abbreviation of itself that is clean too.
pub proof fn law_abbreviation_matches(revision: Seq<char>, length: int)
    requires
        0 <= length <= revision.len(),
        !split_dirty(revision).1,
        !split_dirty(revision.take(length)).1,
    ensures
        same_revision(revision.take(length), revision),
{
    assert(revision.take(length).is_prefix_of(revision));
}


/// A version is older where its first number that differs is smaller, whatever comes after it: the
/// major number counts before the minor one, that before the patch level, and the commits since the
/// tag count last. Equal versions are not older.
pub proof fn law_first_different_number_decides(left: DescribedVersion, right: DescribedVersion)
    ensures
        left.major < right.major ==> older(left, right) && !older(right, left),
        left.major == right.major && left.minor < right.minor ==> older(left, right) && !older(
            right,
            left,
        ),
        left.major == right.major && left.minor == right.minor && left.patch < right.patch ==> older(
            left,
            right,
        ) && !older(right, left),
        left.major == right.major && left.minor == right.minor && left.patch == right.patch
            && left.commits < right.commits ==> older(left, right) && !older(right, left),
        left.major == right.major && left.minor == right.minor && left.patch == right.patch
            && left.commits == right.commits ==> !older(left, right),
{
}

/// Of two different versions one is older, and what is older than an older one is older still.
pub proof fn law_versions_are_ordered(
    first: DescribedVersion,
    second: DescribedVersion,
    third: DescribedVersion,
)
    ensures
        first != second ==> older(first, second) != older(second, first),
        older(first, second) && older(second, third) ==> older(first, third),
{
}

proof fn lemma_decimal_is_digits(n: nat, c: char)
    requires
        c == '.' || c == '-',
    ensures
        !text::decimal(n).contains(c),
    decreases n,
{
    if n < 10 {
        text::law_digits_follow_the_alphabet(n);
    } else {
        lemma_decimal_is_digits(n / 10, c);
        text::law_digits_follow_the_alphabet(n % 10);
        let before = text::decimal(n / 10);
        if text::decimal(n).contains(c) {
            let i = choose|i: int| 0 <= i < text::decimal(n).len() && text::decimal(n)[i] == c;
            if i < before.len() {
                assert(before[i] == c);
                assert(before.contains(c));
            }
        }
    }
}

/// The four numbers, each read on its own, as one version.
spec fn version_of(
    major: Seq<char>,
    minor: Seq<char>,
    patch: Seq<char>,
    commits: Seq<char>,
) -> Option<DescribedVersion> {
    match (number(major), number(minor), number(patch), number(commits)) {
        (Some(major), Some(minor), Some(patch), Some(commits)) => Some(
            DescribedVersion { major, minor, patch, commits },
        ),
        _ => None,
    }
}

proof fn lemma_version_of_parts(
    major: Seq<char>,
    minor: Seq<char>,
    patch: Seq<char>,
    commits: Seq<char>,
    tail: Seq<char>,
)
    requires
        !major.contains('.') && !major.contains('-'),
        !minor.contains('.') && !minor.contains('-'),
        !patch.contains('-'),
        !commits.contains('-'),
    ensures
        ({
            let core = "v"@ + major + "."@ + minor + "."@ + patch;
            &&& described_version(core) == version_of(major, minor, patch, "0"@)
            &&& described_version(core + "-"@ + commits) == version_of(
                major,
                minor,
                patch,
                commits,
            )
            &&& described_version(core + "-"@ + commits + "-"@ + tail) == version_of(
                major,
                minor,
                patch,
                commits,
            )
        }),
{
    reveal_strlit("v");
    reveal_strlit(".");
    reveal_strlit("-");
    let dot = seq!['.'];
    let dash = seq!['-'];
    assert("."@ =~= dot);
    assert("-"@ =~= dash);
    let numbers = major + dot + minor + dot + patch;
    let core = "v"@ + major + "."@ + minor + "."@ + patch;
    assert(!numbers.contains('-')) by {
        if numbers.contains('-') {
            let i = choose|i: int| 0 <= i < numbers.len() && numbers[i] == '-';
            let a = major.len() as int;
            let b = a + 1 + minor.len();
            if i < a {
                assert(major[i] == '-');
                assert(major.contains('-'));
            } else if a < i < b {
                assert(minor[i - a - 1] == '-');
                assert(minor.contains('-'));
            } else if i > b {
                assert(patch[i - b - 1] == '-');
                assert(patch.contains('-'));
            }
        }
    }
    text::law_division_finds_the_character(major, '.', minor + dot + patch);
    assert(numbers =~= major + dot + (minor + dot + patch));
    text::law_division_finds_the_character(minor, '.', patch);
    assert(core.skip(1) =~= numbers);
    assert(core[0] == 'v');
    text::law_division_finds_the_character(numbers, '-', Seq::empty());
    let counted = core + "-"@ + commits;
    assert(counted.skip(1) =~= numbers + dash + commits);
    assert(counted[0] == 'v');
    text::law_division_finds_the_character(numbers, '-', commits);
    text::law_division_finds_the_character(commits, '-', tail);
    let full = core + "-"@ + commits + "-"@ + tail;
    assert(full.skip(1) =~= numbers + dash + (commits + dash + tail));
    assert(full[0] == 'v');
    text::law_division_finds_the_character(numbers, '-', commits + dash + tail);
}

/// The text of a version: `vMAJOR.MINOR.PATCH`.
pub open spec fn version_text(major: nat, minor: nat, patch: nat) -> Seq<char> {
    "v"@ + text::decimal(major) + "."@ + text::decimal(minor) + "."@ + text::decimal(patch)
}

/// A version reads back as its numbers, whatever follows the commits; without any commits since the
/// tag there are none.
pub proof fn law_version_reads_back(
    major: nat,
    minor: nat,
    patch: nat,
    commits: nat,
    tail: Seq<char>,
)
    requires
        major <= u32::MAX,
        minor <= u32::MAX,
        patch <= u32::MAX,
        commits <= u32::MAX,
    ensures
        described_version(version_text(major, minor, patch)) == Some(
            (DescribedVersion { major, minor, patch, commits: 0 }),
        ),
        described_version(version_text(major, minor, patch) + "-"@ + text::decimal(commits))
            == Some((DescribedVersion { major, minor, patch, commits })),
        described_version(
            version_text(major, minor, patch) + "-"@ + text::decimal(commits) + "-"@ + tail,
        ) == Some((DescribedVersion { major, minor, patch, commits })),
{
    text::law_decimal_reads_back(major, u32::MAX as nat);
    text::law_decimal_reads_back(minor, u32::MAX as nat);
    text::law_decimal_reads_back(patch, u32::MAX as nat);
    text::law_decimal_reads_back(commits, u32::MAX as nat);
    lemma_decimal_is_digits(major, '.');
    lemma_decimal_is_digits(major, '-');
    lemma_decimal_is_digits(minor, '.');
    lemma_decimal_is_digits(minor, '-');
    lemma_decimal_is_digits(patch, '-');
    lemma_decimal_is_digits(commits, '-');
    reveal_strlit("0");
    text::law_decimal_reads_back(0, u32::MAX as nat);
    assert("0"@ =~= text::decimal(0));
    lemma_version_of_parts(
        text::decimal(major),
        text::decimal(minor),
        text::decimal(patch),
        text::decimal(commits),
        tail,
    );
}

/// A text that does not begin with `v` is no version.
pub proof fn law_version_begins_with_v(version: Seq<char>)
    requires
        version.len() == 0 || version[0] != 'v',
    ensures
        described_version(version) is None,
{
}

proof fn lemma_more_digits(s: Seq<char>, digit: nat)
    requires
        number(s) is Some,
        number(s)->Some_0 < 1000,
        digit < 10,
    ensures
        number(s.push(text::digit_char(digit))) == Some(number(s)->Some_0 * 10 + digit),
{
    text::law_digits_are_positional(s, digit, 10, u32::MAX as nat);
}

proof fn lemma_one_digit(digit: nat)
    requires
        digit < 10,
    ensures
        number(seq![text::digit_char(digit)]) == Some(digit),
{
    text::law_decimal_reads_back(digit, u32::MAX as nat);
    assert(text::decimal(digit) =~= seq![text::digit_char(digit)]);
}

proof fn lemma_digits_are_no_separators(s: Seq<char>)
    requires
        forall|i: int| 0 <= i < s.len() ==> '0' <= #[trigger] s[i] <= '9',
    ensures
        !s.contains('.'),
        !s.contains('-'),
{
}

proof fn lemma_two_digits(a: nat, b: nat)
    requires
        a < 10,
        b < 10,
    ensures
        number(seq![text::digit_char(a), text::digit_char(b)]) == Some(10 * a + b),
{
    lemma_one_digit(a);
    lemma_more_digits(seq![text::digit_char(a)], b);
    assert(seq![text::digit_char(a)].push(text::digit_char(b)) =~= seq![
        text::digit_char(a),
        text::digit_char(b),
    ]);
}

proof fn lemma_three_digits(a: nat, b: nat, c: nat)
    requires
        a < 10,
        b < 10,
        c < 10,
    ensures
        number(seq![text::digit_char(a), text::digit_char(b), text::digit_char(c)]) == Some(
            100 * a + 10 * b + c,
        ),
{
    lemma_two_digits(a, b);
    let first = seq![text::digit_char(a), text::digit_char(b)];
    lemma_more_digits(first, c);
    assert(first.push(text::digit_char(c)) =~= seq![
        text::digit_char(a),
        text::digit_char(b),
        text::digit_char(c),
    ]);
}

proof fn lemma_four_digits(a: nat, b: nat, c: nat, d: nat)
    requires
        a < 10,
        b < 10,
        c < 10,
        d < 10,
    ensures
        number(
            seq![
                text::digit_char(a),
                text::digit_char(b),
                text::digit_char(c),
                text::digit_char(d),
            ],
        ) == Some(1000 * a + 100 * b + 10 * c + d),
{
    lemma_three_digits(a, b, c);
    let first = seq![text::digit_char(a), text::digit_char(b), text::digit_char(c)];
    lemma_more_digits(first, d);
    assert(first.push(text::digit_char(d)) =~= seq![
        text::digit_char(a),
        text::digit_char(b),
        text::digit_char(c),
        text::digit_char(d),
    ]);
}

proof fn lemma_klipper_minimum_parts()
    ensures
        KLIPPER_MINIMUM_VERSION@ == "v"@ + seq!['0'] + "."@ + seq!['1', '3'] + "."@ + seq!['0'] + "-"@
            + seq!['7', '5', '3'] + "-"@ + KLIPPER_MINIMUM_VERSION@.skip(12),
{
    reveal_strlit("v0.13.0-753-g8c29c0a8e");
    reveal_strlit("v");
    reveal_strlit(".");
    reveal_strlit("-");
    let minimum = KLIPPER_MINIMUM_VERSION@;
    let head = "v"@ + seq!['0'] + "."@ + seq!['1', '3'] + "."@ + seq!['0'] + "-"@ + seq![
        '7',
        '5',
        '3',
    ] + "-"@;
    assert(head.len() == 12);
    assert(head =~= minimum.take(12));
    assert(minimum =~= minimum.take(12) + minimum.skip(12));
}

proof fn lemma_klipper_minimum()
    ensures
        described_version(KLIPPER_MINIMUM_VERSION@) == Some(
            (DescribedVersion { major: 0, minor: 13, patch: 0, commits: 753 }),
        ),
{
    let zero = seq![text::digit_char(0)];
    let minor = seq![text::digit_char(1), text::digit_char(3)];
    let commits = seq![text::digit_char(7), text::digit_char(5), text::digit_char(3)];
    let tail = KLIPPER_MINIMUM_VERSION@.skip(12);
    lemma_klipper_minimum_parts();
    assert(KLIPPER_MINIMUM_VERSION@ == "v"@ + zero + "."@ + minor + "."@ + zero + "-"@ + commits
        + "-"@ + tail);
    lemma_digits_are_no_separators(zero);
    lemma_digits_are_no_separators(minor);
    lemma_digits_are_no_separators(commits);
    lemma_version_of_parts(zero, minor, zero, commits, tail);
    lemma_one_digit(0);
    lemma_two_digits(1, 3);
    lemma_three_digits(7, 5, 3);
}

proof fn lemma_kalico_minimum_parts()
    ensures
        KALICO_MINIMUM_VERSION@ == "v"@ + seq!['2', '0', '2', '6'] + "."@ + seq!['0', '9'] + "."@
            + seq!['0', '0'] + "-"@ + seq!['3'] + "-"@ + KALICO_MINIMUM_VERSION@.skip(14),
{
    reveal_strlit("v2026.09.00-3-g6127720c4");
    reveal_strlit("v");
    reveal_strlit(".");
    reveal_strlit("-");
    let minimum = KALICO_MINIMUM_VERSION@;
    let head = "v"@ + seq!['2', '0', '2', '6'] + "."@ + seq!['0', '9'] + "."@ + seq!['0', '0'] + "-"@
        + seq!['3'] + "-"@;
    assert(head.len() == 14);
    assert(head =~= minimum.take(14));
    assert(minimum =~= minimum.take(14) + minimum.skip(14));
}

proof fn lemma_kalico_minimum()
    ensures
        described_version(KALICO_MINIMUM_VERSION@) == Some(
            (DescribedVersion { major: 2026, minor: 9, patch: 0, commits: 3 }),
        ),
{
    let major = seq![
        text::digit_char(2),
        text::digit_char(0),
        text::digit_char(2),
        text::digit_char(6),
    ];
    let minor = seq![text::digit_char(0), text::digit_char(9)];
    let patch = seq![text::digit_char(0), text::digit_char(0)];
    let commits = seq![text::digit_char(3)];
    let tail = KALICO_MINIMUM_VERSION@.skip(14);
    lemma_kalico_minimum_parts();
    assert(KALICO_MINIMUM_VERSION@ == "v"@ + major + "."@ + minor + "."@ + patch + "-"@ + commits
        + "-"@ + tail);
    lemma_digits_are_no_separators(major);
    lemma_digits_are_no_separators(minor);
    lemma_digits_are_no_separators(patch);
    lemma_digits_are_no_separators(commits);
    lemma_version_of_parts(major, minor, patch, commits, tail);
    lemma_four_digits(2, 0, 2, 6);
    lemma_two_digits(0, 9);
    lemma_two_digits(0, 0);
    lemma_one_digit(3);
}

/// Klipper is too old to be managed below 753 commits after v0.13.0, and Kalico below three commits
/// after v2026.9.0; from there on only an MCU without an embedded configuration is not managed.
pub proof fn law_known_firmware_needs_its_minimum_version(
    mcu: Mcu,
    kalico: bool,
    major: nat,
    minor: nat,
    patch: nat,
    commits: nat,
    tail: Seq<char>,
)
    requires
        major <= u32::MAX,
        minor <= u32::MAX,
        patch <= u32::MAX,
        commits <= u32::MAX,
        mcu.app is Some,
        text::same_ignoring_case(
            text::trimmed(mcu.app->Some_0@),
            if kalico {
                "kalico"@
            } else {
                "klipper"@
            },
        ),
        mcu.version is Some,
        mcu.version->Some_0@ == version_text(major, minor, patch) + "-"@ + text::decimal(commits)
            + "-"@ + tail,
    ensures
        ({
            let too_old = if kalico {
                major < 2026 || (major == 2026 && (minor < 9 || (minor == 9 && patch == 0 && commits
                    < 3)))
            } else {
                major == 0 && (minor < 13 || (minor == 13 && patch == 0 && commits < 753))
            };
            if too_old {
                &&& standing(mcu) is VersionTooOld
                &&& standing(mcu)->VersionTooOld_running == mcu.version->Some_0@
                &&& standing(mcu)->VersionTooOld_firmware == if kalico {
                    FirmwareKind::Kalico
                } else {
                    FirmwareKind::Klipper
                }
            } else if text::blank(mcu.kconfig@) {
                standing(mcu) is NoEmbeddedConfig
            } else {
                standing(mcu) is Eligible
            }
        }),
{
    law_version_reads_back(major, minor, patch, commits, tail);
    lemma_klipper_minimum();
    lemma_kalico_minimum();
    lemma_name_is_one_kind(text::trimmed(mcu.app->Some_0@));
    lemma_blank_configuration(mcu);
}

proof fn lemma_name_is_one_kind(name: Seq<char>)
    ensures
        !(text::same_ignoring_case(name, "klipper"@) && text::same_ignoring_case(name, "kalico"@)),
        text::same_ignoring_case(name, "klipper"@) || text::same_ignoring_case(name, "kalico"@)
            ==> name.len() > 0,
{
    reveal_strlit("klipper");
    reveal_strlit("kalico");
    assert(text::lowercased(name).len() == name.len());
    assert(text::lowercased("klipper"@).len() == 7);
    assert(text::lowercased("kalico"@).len() == 6);
}

proof fn lemma_blank_configuration(mcu: Mcu)
    ensures
        (text::trimmed(mcu.kconfig@).len() == 0) == text::blank(mcu.kconfig@),
{
    let parts = text::law_trimmed_text_stands_in_white_space(mcu.kconfig@);
    let kept = text::trimmed(mcu.kconfig@);
    if kept.len() == 0 {
        assert forall|i: int| 0 <= i < mcu.kconfig@.len() implies text::is_white_space(
            #[trigger] mcu.kconfig@[i],
        ) by {
            if i < parts.0.len() {
                assert(mcu.kconfig@[i] == parts.0[i]);
            } else {
                assert(mcu.kconfig@[i] == parts.1[i - parts.0.len()]);
            }
        }
    } else {
        assert(mcu.kconfig@[parts.0.len() as int] == kept[0]);
    }
}

/// Klipper and Kalico whose version cannot be read are managed where they embed a configuration.
pub proof fn law_known_firmware_of_unreadable_version(mcu: Mcu)
    requires
        mcu.app is Some,
        text::same_ignoring_case(text::trimmed(mcu.app->Some_0@), "klipper"@)
            || text::same_ignoring_case(text::trimmed(mcu.app->Some_0@), "kalico"@),
        mcu.version is None || described_version(mcu.version->Some_0@) is None,
    ensures
        standing(mcu) is Eligible == !text::blank(mcu.kconfig@),
        standing(mcu) is NoEmbeddedConfig == text::blank(mcu.kconfig@),
{
    lemma_name_is_one_kind(text::trimmed(mcu.app->Some_0@));
    lemma_blank_configuration(mcu);
}

/// Firmware that gives itself any other name is left to its own project, under that name.
pub proof fn law_other_firmware_is_not_managed(mcu: Mcu)
    requires
        mcu.app is Some,
        !text::blank(mcu.app->Some_0@),
        !text::same_ignoring_case(text::trimmed(mcu.app->Some_0@), "klipper"@),
        !text::same_ignoring_case(text::trimmed(mcu.app->Some_0@), "kalico"@),
    ensures
        standing(mcu) == Standing::ExternallyManaged(text::trimmed(mcu.app->Some_0@)),
{
    let app = mcu.app->Some_0@;
    let parts = text::law_trimmed_text_stands_in_white_space(app);
    if text::trimmed(app).len() == 0 {
        assert forall|i: int| 0 <= i < app.len() implies text::is_white_space(#[trigger] app[i]) by {
            if i < parts.0.len() {
                assert(app[i] == parts.0[i]);
            } else {
                assert(app[i] == parts.1[i - parts.0.len()]);
            }
        }
    }
}

/// A blank name is none: firmware that reports one stands as it would without a name.
pub proof fn law_blank_name_is_none(named: Mcu, unnamed: Mcu)
    requires
        named.app is Some,
        text::blank(named.app->Some_0@),
        unnamed == (Mcu { app: None, ..named }),
    ensures
        standing(named) == standing(unnamed),
{
    let app = named.app->Some_0@;
    text::law_trimming_takes_only_white_space(app, Seq::empty(), Seq::empty());
    assert(app + Seq::<char>::empty() + Seq::<char>::empty() =~= app);
}

/// Firmware without a name is named by the first word of its version, unless that begins with `v`
/// and a digit; such firmware, and firmware without a version, is managed where it embeds a
/// configuration.
pub proof fn law_unnamed_firmware_is_named_by_its_version(
    mcu: Mcu,
    before: Seq<char>,
    word: Seq<char>,
    rest: Seq<char>,
)
    requires
        mcu.app is None,
        text::blank(before),
        forall|i: int| 0 <= i < word.len() ==> !text::is_white_space(#[trigger] word[i]),
        rest.len() > 0 ==> text::is_white_space(rest[0]),
        mcu.version is Some ==> mcu.version->Some_0@ == before + word + rest && word.len() > 0,
    ensures
        ({
            let tagged = before.len() == 0 && word.len() >= 2 && (word[0] == 'v' || word[0] == 'V')
                && '0' <= word[1] <= '9';
            if mcu.version is Some && !tagged {
                standing(mcu) == Standing::ExternallyManaged(word)
            } else {
                &&& standing(mcu) is Eligible == !text::blank(mcu.kconfig@)
                &&& standing(mcu) is NoEmbeddedConfig == text::blank(mcu.kconfig@)
            }
        }),
{
    lemma_blank_configuration(mcu);
    if mcu.version is Some {
        text::law_first_word_ends_at_white_space(before, word, rest);
        let version = mcu.version->Some_0@;
        if before.len() > 0 {
            assert(version[0] == before[0]);
            text::law_printed_ascii_is_no_white_space(version[0]);
        } else {
            assert(version[0] == word[0]);
            if word.len() >= 2 {
                assert(version[1] == word[1]);
            } else if version.len() >= 2 {
                assert(version[1] == rest[0]);
                text::law_printed_ascii_is_no_white_space(version[1]);
            }
        }
    }
}

/// Whether a revision is of an unmodified tree.
pub open spec fn clean(revision: Seq<char>) -> bool {
    !text::contains_text(revision, "-dirty"@)
}

proof fn lemma_dirty_follows(base: Seq<char>, rest: Seq<char>)
    requires
        clean(base),
    ensures
        text::divided(base + "-dirty-"@ + rest, "-dirty-"@) == Some((base, rest)),
        !text::contains_text(base, "-dirty-"@),
        text::divided(base + "-dirty"@, "-dirty-"@) is None,
{
    reveal_strlit("-dirty-");
    reveal_strlit("-dirty");
    let pattern = "-dirty-"@;
    let short = "-dirty"@;
    let s = base + pattern + rest;
    let t = base + short;
    let at = base.len() as int;
    assert forall|k: int| text::occurs_at(base, pattern, k) implies false by {
        let found = base.subrange(k, k + 7);
        assert(base.subrange(k, k + 6) =~= found.take(6));
        assert(pattern.take(6) =~= short);
        assert(text::occurs_at(base, short, k));
    }
    assert forall|whole: Seq<char>, k: int|
        (whole == s || whole == t) && #[trigger] text::occurs_at(whole, pattern, k) implies k
        >= at by {
        let found = whole.subrange(k, k + 7);
        if k < at {
            if at - k >= 6 {
                assert(base.subrange(k, k + 6) =~= found.take(6));
                assert(pattern.take(6) =~= short);
                assert(text::occurs_at(base, short, k));
            } else {
                assert(whole[at] == '-');
                assert(found[at - k] == whole[at]);
                assert(found[at - k] == pattern[at - k]);
            }
        }
    }
    assert(s.subrange(at, at + 7) =~= pattern);
    assert(text::occurs_at(s, pattern, at));
    text::law_division_is_at_the_first_place(s, pattern);
    let (before, after) = text::divided(s, pattern)->Some_0;
    assert(s.subrange(before.len() as int, before.len() as int + 7) =~= pattern);
    assert(text::occurs_at(s, pattern, before.len() as int));
    assert(before.len() == at);
    assert(before =~= s.take(at));
    assert(base =~= s.take(at));
    assert(after =~= s.skip(at + 7));
    assert(rest =~= s.skip(at + 7));
    text::law_division_is_at_the_first_place(t, pattern);
    if text::divided(t, pattern) is Some {
        let (before, after) = text::divided(t, pattern)->Some_0;
        assert(t.subrange(before.len() as int, before.len() as int + 7) =~= pattern);
        assert(text::occurs_at(t, pattern, before.len() as int));
    }
}

/// A revision of an unmodified tree is all there is of it; `-dirty`, alone or with the time and the
/// host of the build, marks one of a modified tree and is no part of it.
pub proof fn law_dirt_is_marked_at_the_end(base: Seq<char>, time: Seq<char>, host: Seq<char>)
    requires
        clean(base),
        time.len() == 15,
        time[8] == '_',
        forall|i: int| 0 <= i < 15 && i != 8 ==> '0' <= #[trigger] time[i] <= '9',
        host.len() > 0,
    ensures
        split_dirty(base) == (base, false),
        split_dirty(base + "-dirty"@) == (base, true),
        split_dirty(base + "-dirty-"@ + time + "-"@ + host) == (base, true),
{
    reveal_strlit("-dirty");
    reveal_strlit("-");
    let short = "-dirty"@;
    lemma_dirty_follows(base, time + "-"@ + host);
    text::law_division_is_at_the_first_place(base, "-dirty-"@);
    if text::divided(base, "-dirty-"@) is Some {
        let (before, after) = text::divided(base, "-dirty-"@)->Some_0;
        assert(base.subrange(before.len() as int, (before.len() + "-dirty-"@.len()) as int) =~= "-dirty-"@);
        assert(text::occurs_at(base, "-dirty-"@, before.len() as int));
    }
    if short.is_suffix_of(base) {
        assert(base.subrange(base.len() - 6, base.len() as int) =~= short);
        assert(text::occurs_at(base, short, base.len() - 6));
    }
    let marked = base + short;
    assert(short.is_suffix_of(marked));
    assert(marked.take(marked.len() - short.len()) =~= base);
    let full = base + "-dirty-"@ + time + "-"@ + host;
    assert(full =~= base + "-dirty-"@ + (time + "-"@ + host));
    assert(!time.contains('-')) by {
        if time.contains('-') {
            let i = choose|i: int| 0 <= i < time.len() && time[i] == '-';
            assert(i == 8 || '0' <= time[i] <= '9');
        }
    }
    assert("-"@ =~= seq!['-']);
    text::law_division_finds_the_character(time, '-', host);
}

/// Two revisions of unmodified trees name the same commit exactly where one begins the other; so do
/// two of modified trees, whatever marks them, and one of each never does.
pub proof fn law_revisions_match_by_their_beginnings(
    left: Seq<char>,
    right: Seq<char>,
    time: Seq<char>,
    host: Seq<char>,
)
    requires
        clean(left),
        clean(right),
        time.len() == 15,
        time[8] == '_',
        forall|i: int| 0 <= i < 15 && i != 8 ==> '0' <= #[trigger] time[i] <= '9',
        host.len() > 0,
    ensures
        ({
            let one_begins_the_other = left.is_prefix_of(right) || right.is_prefix_of(left);
            let built = right + "-dirty-"@ + time + "-"@ + host;
            &&& same_revision(left, right) == one_begins_the_other
            &&& same_revision(left + "-dirty"@, right + "-dirty"@) == one_begins_the_other
            &&& same_revision(left + "-dirty"@, built) == one_begins_the_other
            &&& !same_revision(left, right + "-dirty"@)
            &&& !same_revision(left, built)
            &&& !same_revision(left + "-dirty"@, right)
            &&& !same_revision(built, left)
        }),
{
    law_dirt_is_marked_at_the_end(left, time, host);
    law_dirt_is_marked_at_the_end(right, time, host);
}

/// An MCU runs the checkout's revision where the revisions match, and needs an update where they do
/// not; without both revisions nothing can be said.
pub proof fn law_status_is_of_both_revisions(mcu: Mcu, checkout: CheckoutRevision)
    ensures
        mcu.version is None || checkout is Indeterminate ==> revision_status(mcu, checkout)
            == RevisionStatus::Indeterminate,
        mcu.version is Some && checkout is Known && mcu.version->Some_0@ == checkout->Known_0@
            ==> revision_status(mcu, checkout) == RevisionStatus::Current,
        mcu.version is Some && checkout is Known && clean(mcu.version->Some_0@) && clean(
            checkout->Known_0@,
        ) && !mcu.version->Some_0@.is_prefix_of(checkout->Known_0@)
            && !checkout->Known_0@.is_prefix_of(mcu.version->Some_0@) ==> revision_status(
            mcu,
            checkout,
        ) == RevisionStatus::UpdateRequired,
{
    if mcu.version is Some && checkout is Known {
        law_revision_matches_itself(checkout->Known_0@);
        let running = mcu.version->Some_0@;
        let selected = checkout->Known_0@;
        if clean(running) && clean(selected) {
            let time = Seq::new(
                15,
                |i: int|
                    if i == 8 {
                        '_'
                    } else {
                        '0'
                    },
            );
            law_revisions_match_by_their_beginnings(running, selected, time, seq!['h']);
        }
    }
}

/// Of the eligible MCUs, all are offered where all are asked for; only those that are known to be
/// out of date where nothing is forced; and only the one that is named where one is, whatever it
/// runs.
pub proof fn law_eligible_mcus_are_selected(mcu: Mcu, checkout: CheckoutRevision, name: String)
    requires
        standing(mcu) is Eligible,
    ensures
        selected(mcu, checkout, UpdateSelection::All),
        selected(mcu, checkout, UpdateSelection::Force(name)) == (name@ == mcu.name@),
        selected(mcu, checkout, UpdateSelection::Required) == (mcu.version is Some
            && checkout is Known && !same_revision(mcu.version->Some_0@, checkout->Known_0@)),
{
}

} // verus!
