//! Klipper MCU status reporting.
use vstd::prelude::*;

use crate::checkout::{CheckoutError, CheckoutPort, RefreshResult};
use crate::eligibility;
use crate::eligibility::{
    assess_mcu,
    CheckoutRevision,
    Eligibility,
    McuStatus,
    RevisionStatus,
    Standing,
};
use crate::error_chain;
use crate::moonraker::{Mcu, McuInventory, McuTransport, MoonrakerError};
use crate::text;

verus! {

/// How a checkout revision is shown.
pub open spec fn revision_text(checkout: CheckoutRevision) -> Seq<char> {
    match checkout {
        CheckoutRevision::Known(revision) => revision@,
        CheckoutRevision::Indeterminate => "unknown"@,
    }
}

/// How a checkout revision is shown.
pub fn checkout_label(checkout: &CheckoutRevision) -> (label: &str)
    ensures
        label@ == revision_text(*checkout),
{
    match checkout {
        CheckoutRevision::Known(revision) => revision.as_str(),
        CheckoutRevision::Indeterminate => "unknown",
    }
}

/// How a refresh is shown: both revisions and the number of commits between them.
pub open spec fn refresh_text(refreshed: RefreshResult) -> Seq<char> {
    revision_text(refreshed.before) + " -> "@ + revision_text(refreshed.after) + " ("@
        + text::decimal(refreshed.commits_advanced as nat) + " "@ + (if refreshed.commits_advanced
        == 1 {
        "commit"@
    } else {
        "commits"@
    }) + ")"@
}

/// How a refresh is shown.
pub fn refresh_label(refreshed: &RefreshResult) -> (label: String)
    ensures
        label@ == refresh_text(*refreshed),
{
    let mut label: String = checkout_label(&refreshed.before).to_owned();
    label.append(" -> ");
    label.append(checkout_label(&refreshed.after));
    label.append(" (");
    label.append(text::decimal_text(refreshed.commits_advanced as u64).as_str());
    label.append(" ");
    if refreshed.commits_advanced == 1 {
        label.append("commit");
    } else {
        label.append("commits");
    }
    label.append(")");
    label
}

/// The name of an MCU's firmware: the one it reports, or Klipper where it embeds a Kconfig.
pub open spec fn firmware_text(mcu: Mcu) -> Seq<char> {
    match mcu.app {
        Some(app) if text::trimmed(app@).len() > 0 => app@,
        _ => if text::trimmed(mcu.kconfig@).len() > 0 {
            "Klipper"@
        } else {
            "unknown"@
        },
    }
}

/// The name of an MCU's firmware.
pub fn firmware_label(mcu: &Mcu) -> (label: String)
    ensures
        label@ == firmware_text(*mcu),
{
    if let Some(app) = &mcu.app {
        if text::trim(app.as_str()).unicode_len() > 0 {
            return app.clone();
        }
    }
    if text::trim(mcu.kconfig.as_str()).unicode_len() > 0 {
        "Klipper".to_owned()
    } else {
        "unknown".to_owned()
    }
}

/// How an MCU is connected.
pub open spec fn connection_text(transport: Option<McuTransport>) -> Seq<char> {
    match transport {
        Some(McuTransport::Serial { device }) => "serial ("@ + device@ + ")"@,
        Some(McuTransport::Can { interface, uuid }) => "CAN ("@ + interface@ + ", "@
            + text::padded_start(text::hexadecimal(uuid as nat), 12, '0') + ")"@,
        None => "not configured"@,
    }
}

/// How an MCU is connected.
pub fn connection_label(transport: &Option<McuTransport>) -> (label: String)
    ensures
        label@ == connection_text(*transport),
{
    match transport {
        Some(McuTransport::Serial { device }) => {
            let mut label: String = "serial (".to_owned();
            label.append(device.as_str());
            label.append(")");
            label
        },
        Some(McuTransport::Can { interface, uuid }) => {
            let mut label: String = "CAN (".to_owned();
            label.append(interface.as_str());
            label.append(", ");
            label.append(
                text::pad_start(text::hexadecimal_text(*uuid).as_str(), 12, '0').as_str(),
            );
            label.append(")");
            label
        },
        None => "not configured".to_owned(),
    }
}

/// Whether an MCU is supported, in a word.
pub open spec fn supported_text(standing: Standing) -> Seq<char> {
    if standing is Eligible {
        "yes"@
    } else {
        "no"@
    }
}

/// Whether an MCU is supported, in a word.
pub fn supported_label(eligibility: &Eligibility) -> (label: &'static str)
    ensures
        label@ == supported_text(eligibility@),
{
    match eligibility {
        Eligibility::Eligible => "yes",
        Eligibility::ExternallyManaged(_) => "no",
        Eligibility::Unsupported(_) => "no",
    }
}

/// Whether an MCU needs an update, in a word.
pub open spec fn update_text(revision: Option<RevisionStatus>) -> Seq<char> {
    match revision {
        Some(RevisionStatus::Current) => "no"@,
        Some(RevisionStatus::UpdateRequired) => "yes"@,
        Some(RevisionStatus::Indeterminate) => "unknown"@,
        None => "n/a"@,
    }
}

/// Whether an MCU needs an update, in a word.
pub fn update_label(revision: Option<RevisionStatus>) -> (label: &'static str)
    ensures
        label@ == update_text(revision),
{
    match revision {
        Some(RevisionStatus::Current) => "no",
        Some(RevisionStatus::UpdateRequired) => "yes",
        Some(RevisionStatus::Indeterminate) => "unknown",
        None => "n/a",
    }
}

/// One line of an MCU's status: the values stand in one column.
pub open spec fn field_text(label: Seq<char>, value: Seq<char>) -> Seq<char> {
    "  "@ + text::padded_end(label, 13, ' ') + " "@ + value + "\n"@
}

/// The status of one MCU.
pub open spec fn mcu_text(mcu: Mcu, checkout: CheckoutRevision) -> Seq<char> {
    let version = match mcu.version {
        Some(version) => version@,
        None => "unknown"@,
    };
    let standing = eligibility::standing(mcu);
    let revision = if standing is Eligible {
        Some(eligibility::revision_status(mcu, checkout))
    } else {
        None
    };
    "\n"@ + mcu.name@ + "\n"@ + field_text("firmware:"@, firmware_text(mcu)) + field_text(
        "version:"@,
        version,
    ) + field_text("model:"@, mcu.mcu@) + field_text(
        "connection:"@,
        connection_text(mcu.transport),
    ) + field_text("supported:"@, supported_text(standing)) + field_text(
        "needs update:"@,
        update_text(revision),
    )
}

/// The status of the first `count` MCUs, in order.
pub open spec fn mcus_text(mcus: Seq<Mcu>, checkout: CheckoutRevision, count: int) -> Seq<char>
    decreases count,
{
    if count <= 0 {
        Seq::empty()
    } else {
        mcus_text(mcus, checkout, count - 1) + mcu_text(mcus[count - 1], checkout)
    }
}

/// The whole status: the checkout, and every MCU compared with it.
pub open spec fn status_text(
    source: Seq<char>,
    checkout: CheckoutRevision,
    inventory: McuInventory,
    refreshed: Option<RefreshResult>,
) -> Seq<char> {
    let revision = match refreshed {
        Some(refreshed) => refresh_text(refreshed),
        None => revision_text(checkout),
    };
    "Klipper source:    "@ + source + "\nCheckout revision: "@ + revision + "\n"@ + mcus_text(
        inventory.mcus@,
        checkout,
        inventory.mcus@.len() as int,
    )
}

fn append_field(output: &mut String, label: &str, value: &str)
    ensures
        final(output)@ == old(output)@ + field_text(label@, value@),
{
    let ghost before = output@;
    output.append("  ");
    output.append(text::pad_end(label, 13, ' ').as_str());
    output.append(" ");
    output.append(value);
    output.append("\n");
    assert(output@ =~= before + field_text(label@, value@));
}

fn append_mcu(output: &mut String, mcu: &Mcu, checkout: &CheckoutRevision)
    ensures
        final(output)@ == old(output)@ + mcu_text(*mcu, *checkout),
{
    let ghost before = output@;
    let status: McuStatus = assess_mcu(mcu, checkout);
    let version: &str = match &mcu.version {
        Some(version) => version.as_str(),
        None => "unknown",
    };
    let mut section: String = "\n".to_owned();
    section.append(mcu.name.as_str());
    section.append("\n");
    append_field(&mut section, "firmware:", firmware_label(mcu).as_str());
    append_field(&mut section, "version:", version);
    append_field(&mut section, "model:", mcu.mcu.as_str());
    append_field(&mut section, "connection:", connection_label(&mcu.transport).as_str());
    append_field(&mut section, "supported:", supported_label(&status.eligibility));
    append_field(&mut section, "needs update:", update_label(status.revision));
    assert(section@ == mcu_text(*mcu, *checkout));
    output.append(section.as_str());
}

/// Renders the checkout and every MCU compared with it.
pub fn format_status(
    source: &str,
    checkout: &CheckoutRevision,
    inventory: &McuInventory,
    refreshed: &Option<RefreshResult>,
) -> (output: String)
    ensures
        output@ == status_text(source@, *checkout, *inventory, *refreshed),
{
    let mut output: String = "Klipper source:    ".to_owned();
    output.append(source);
    output.append("\nCheckout revision: ");
    match refreshed {
        Some(refreshed) => {
            output.append(refresh_label(refreshed).as_str());
        },
        None => {
            output.append(checkout_label(checkout));
        },
    }
    output.append("\n");
    let ghost head = output@;
    assert(output@ =~= head + mcus_text(inventory.mcus@, *checkout, 0));
    let mut i: usize = 0;
    while i < inventory.mcus.len()
        invariant
            i <= inventory.mcus@.len(),
            output@ == head + mcus_text(inventory.mcus@, *checkout, i as int),
        decreases inventory.mcus@.len() - i,
    {
        let ghost before = mcus_text(inventory.mcus@, *checkout, i as int);
        append_mcu(&mut output, &inventory.mcus[i], checkout);
        proof {
            let section = mcu_text(inventory.mcus@[i as int], *checkout);
            assert(head + before + section =~= head + (before + section));
        }
        i += 1;
    }
    output
}

/// The revision that MCUs are compared with: none is assumed where it could not be read.
pub open spec fn usable_revision(result: Result<CheckoutRevision, CheckoutError>) -> CheckoutRevision {
    match result {
        Ok(revision) => revision,
        Err(_) => CheckoutRevision::Indeterminate,
    }
}

/// The revision that MCUs are compared with: none is assumed where it could not be read.
pub fn revision_or_indeterminate(result: Result<CheckoutRevision, CheckoutError>) -> (revision:
    CheckoutRevision)
    ensures
        revision == usable_revision(result),
{
    match result {
        Ok(revision) => revision,
        Err(_) => CheckoutRevision::Indeterminate,
    }
}

/// An error with the wording of what failed in front of it.
pub open spec fn in_context(context: Seq<char>, chain: Seq<Seq<char>>) -> Seq<char> {
    text::joined(seq![context] + chain, ": "@)
}

/// An error with the wording of what failed in front of it.
pub fn with_context(context: &str, chain: &Vec<String>) -> (message: String)
    ensures
        message@ == in_context(context@, text::texts(chain@)),
{
    let mut messages: Vec<String> = Vec::new();
    messages.push(context.to_owned());
    let mut i: usize = 0;
    assert(text::texts(messages@) =~= seq![context@] + text::texts(chain@).take(0));
    while i < chain.len()
        invariant
            i <= chain@.len(),
            text::texts(messages@) == seq![context@] + text::texts(chain@).take(i as int),
        decreases chain@.len() - i,
    {
        let ghost before = text::texts(messages@);
        messages.push(chain[i].clone());
        proof {
            assert(text::texts(messages@) =~= before.push(chain@[i as int]@));
            assert(text::texts(messages@) =~= seq![context@] + text::texts(chain@).take(i + 1));
        }
        i += 1;
    }
    assert(text::texts(chain@).take(chain@.len() as int) =~= text::texts(chain@));
    error_chain(&messages)
}

/// Reports the status from what Moonraker and the checkout answered. The checkout is asked only
/// where the MCUs are known.
pub fn status_report<C: CheckoutPort>(
    discovered: Result<McuInventory, MoonrakerError>,
    checkout: &mut C,
    source: &str,
) -> (report: Result<String, String>)
    ensures
        match discovered {
            Err(error) => {
                &&& report is Err
                &&& report->Err_0@ == in_context("failed to discover MCUs"@, error.chain())
                &&& *final(checkout) == *old(checkout)
            },
            Ok(inventory) => {
                let answer = final(checkout).answers().last();
                &&& final(checkout).answers() == old(checkout).answers().push(answer)
                &&& answer is Revision
                &&& answer->Revision_path == source@
                &&& report is Ok
                &&& report->Ok_0@ == status_text(
                    source@,
                    usable_revision(answer->Revision_result),
                    inventory,
                    None,
                )
            },
        },
{
    match discovered {
        Err(error) => Err(with_context("failed to discover MCUs", &error.messages())),
        Ok(inventory) => {
            let revision: CheckoutRevision = revision_or_indeterminate(checkout.revision(source));
            Ok(format_status(source, &revision, &inventory, &None))
        },
    }
}

/// The configuration that the first `count` MCUs reported, in order.
pub open spec fn configurations_text(mcus: Seq<Mcu>, count: int) -> Seq<char>
    decreases count,
{
    if count <= 0 {
        Seq::empty()
    } else {
        configurations_text(mcus, count - 1) + ("\n"@ + mcus[count - 1].name@ + "\n  chip: "@
            + mcus[count - 1].mcu@ + "\n  Kconfig settings: "@ + text::decimal(
            text::text_lines(mcus[count - 1].kconfig@).len(),
        ) + "\n"@)
    }
}

/// Renders the MCU configuration that Moonraker reported.
pub fn print_inventory(url: &str, inventory: &McuInventory) -> (output: String)
    ensures
        output@ == "phase: discover\nMoonraker: "@ + url@ + "\nMCUs: "@ + text::decimal(
            inventory.mcus@.len(),
        ) + "\n"@ + configurations_text(inventory.mcus@, inventory.mcus@.len() as int),
{
    let mut output: String = "phase: discover\nMoonraker: ".to_owned();
    output.append(url);
    output.append("\nMCUs: ");
    output.append(text::decimal_text(inventory.mcus.len() as u64).as_str());
    output.append("\n");
    let ghost head = output@;
    assert(output@ =~= head + configurations_text(inventory.mcus@, 0));
    let mut i: usize = 0;
    while i < inventory.mcus.len()
        invariant
            i <= inventory.mcus@.len(),
            output@ == head + configurations_text(inventory.mcus@, i as int),
        decreases inventory.mcus@.len() - i,
    {
        let mcu: &Mcu = &inventory.mcus[i];
        let mut section: String = "\n".to_owned();
        section.append(mcu.name.as_str());
        section.append("\n  chip: ");
        section.append(mcu.mcu.as_str());
        section.append("\n  Kconfig settings: ");
        let lines: Vec<String> = text::lines(mcu.kconfig.as_str());
        section.append(text::decimal_text(lines.len() as u64).as_str());
        section.append("\n");
        let ghost before = configurations_text(inventory.mcus@, i as int);
        output.append(section.as_str());
        proof {
            assert(text::texts(lines@).len() == lines@.len());
            assert(head + before + section@ =~= head + (before + section@));
        }
        i += 1;
    }
    output
}

/// A known revision is shown as it is, and one that could not be read is unknown.
pub proof fn law_revision_is_shown_as_it_is(
    revision: String,
    result: Result<CheckoutRevision, CheckoutError>,
)
    ensures
        revision_text(CheckoutRevision::Known(revision)) == revision@,
        revision_text(CheckoutRevision::Indeterminate) == "unknown"@,
        result is Ok ==> usable_revision(result) == result->Ok_0,
        result is Err ==> usable_revision(result) is Indeterminate,
{
}

/// An MCU is shown as supported exactly if it is eligible, and as needing an update exactly if its
/// revision says so; an MCU that is not eligible has no answer.
pub proof fn law_labels_say_what_was_found(standing: Standing, revision: Option<RevisionStatus>)
    ensures
        supported_text(standing) == "yes"@ <==> standing is Eligible,
        supported_text(standing) == "no"@ <==> !(standing is Eligible),
        update_text(revision) == "yes"@ <==> revision == Some(RevisionStatus::UpdateRequired),
        update_text(revision) == "no"@ <==> revision == Some(RevisionStatus::Current),
        update_text(revision) == "unknown"@ <==> revision == Some(RevisionStatus::Indeterminate),
        update_text(revision) == "n/a"@ <==> revision is None,
{
    reveal_strlit("yes");
    reveal_strlit("no");
    reveal_strlit("unknown");
    reveal_strlit("n/a");
    assert("yes"@.len() == 3 && "no"@.len() == 2 && "unknown"@.len() == 7 && "n/a"@.len() == 3);
    assert("yes"@[0] == 'y' && "n/a"@[0] == 'n');
}

/// A connection is shown with the device, or with the interface and the UUID, which is written in
/// at least twelve hexadecimal digits.
pub proof fn law_connection_is_shown_whole(device: String, interface: String, uuid: u64)
    ensures
        connection_text(Some(McuTransport::Serial { device })) == "serial ("@ + device@ + ")"@,
        connection_text(Some(McuTransport::Can { interface, uuid })) == "CAN ("@ + interface@
            + ", "@ + text::padded_start(text::hexadecimal(uuid as nat), 12, '0') + ")"@,
        connection_text(None) == "not configured"@,
{
}

/// The firmware of an MCU is named as it names itself; one that does not is Klipper if it has a
/// configuration, and unknown otherwise.
pub proof fn law_firmware_is_named_as_it_names_itself(mcu: Mcu)
    ensures
        mcu.app is Some && text::trimmed(mcu.app->Some_0@).len() > 0 ==> firmware_text(mcu)
            == mcu.app->Some_0@,
        (mcu.app is None || text::trimmed(mcu.app->Some_0@).len() == 0) && text::trimmed(
            mcu.kconfig@,
        ).len() > 0 ==> firmware_text(mcu) == "Klipper"@,
        (mcu.app is None || text::trimmed(mcu.app->Some_0@).len() == 0) && text::trimmed(
            mcu.kconfig@,
        ).len() == 0 ==> firmware_text(mcu) == "unknown"@,
{
}

/// A refresh is shown with both revisions and the number of commits between them, in the singular
/// for one.
pub proof fn law_refresh_is_shown_with_its_commits(refreshed: RefreshResult)
    ensures
        ({
            let head = revision_text(refreshed.before) + " -> "@ + revision_text(refreshed.after)
                + " ("@ + text::decimal(refreshed.commits_advanced as nat) + " "@;
            &&& refreshed.commits_advanced == 1 ==> refresh_text(refreshed) == head + "commit"@
                + ")"@
            &&& refreshed.commits_advanced != 1 ==> refresh_text(refreshed) == head + "commits"@
                + ")"@
        }),
{
}

/// Every MCU has its section, in the order of the inventory: what is shown of more MCUs is what is
/// shown of fewer, and then the section of the next one, which begins with its name.
pub proof fn law_every_mcu_is_shown(mcus: Seq<Mcu>, checkout: CheckoutRevision, count: int)
    requires
        0 <= count < mcus.len(),
    ensures
        mcus_text(mcus, checkout, 0).len() == 0,
        mcus_text(mcus, checkout, count + 1) == mcus_text(mcus, checkout, count) + mcu_text(
            mcus[count],
            checkout,
        ),
        mcu_text(mcus[count], checkout)[0] == '\n',
        mcu_text(mcus[count], checkout).subrange(1, mcus[count].name@.len() as int + 1)
            == mcus[count].name@,
{
    reveal_strlit("\n");
    let mcu = mcus[count];
    let section = mcu_text(mcu, checkout);
    assert(section[0] == '\n');
    assert(section.subrange(1, mcu.name@.len() as int + 1) =~= mcu.name@);
}

/// A section shows each thing under its own label: the version as it was reported, the chip, the
/// connection, whether the MCU is supported, and whether it needs an update, which is asked only of
/// a supported one.
pub proof fn law_section_shows_the_mcu(mcu: Mcu, checkout: CheckoutRevision)
    ensures
        ({
            let eligible = eligibility::standing(mcu) is Eligible;
            let version = if mcu.version is Some {
                mcu.version->Some_0@
            } else {
                "unknown"@
            };
            let update = if eligible {
                update_text(Some(eligibility::revision_status(mcu, checkout)))
            } else {
                "n/a"@
            };
            mcu_text(mcu, checkout) == "\n"@ + mcu.name@ + "\n"@ + field_text(
                "firmware:"@,
                firmware_text(mcu),
            ) + field_text("version:"@, version) + field_text("model:"@, mcu.mcu@) + field_text(
                "connection:"@,
                connection_text(mcu.transport),
            ) + field_text(
                "supported:"@,
                if eligible {
                    "yes"@
                } else {
                    "no"@
                },
            ) + field_text("needs update:"@, update)
        }),
{
}

/// A field is its label, filled up to thirteen characters, and its value, on a line of its own.
pub proof fn law_field_holds_label_and_value(label: Seq<char>, value: Seq<char>)
    requires
        label.len() <= 13,
    ensures
        ({
            let field = field_text(label, value);
            &&& field.len() == 17 + value.len()
            &&& field.subrange(2, label.len() as int + 2) == label
            &&& field.subrange(16, field.len() - 1) == value
            &&& field.last() == '\n'
        }),
{
    reveal_strlit("  ");
    reveal_strlit(" ");
    reveal_strlit("\n");
    text::law_padding_fills_the_width(label, 13, ' ', 0);
    let field = field_text(label, value);
    assert(field.subrange(2, label.len() as int + 2) =~= label);
    assert(field.subrange(16, field.len() - 1) =~= value);
}

/// The report names the source and the revision, or what a refresh did, before the MCUs.
pub proof fn law_report_names_source_and_revision(
    source: Seq<char>,
    checkout: CheckoutRevision,
    inventory: McuInventory,
    refreshed: RefreshResult,
)
    ensures
        ({
            let head = "Klipper source:    "@ + source + "\nCheckout revision: "@;
            let mcus = mcus_text(inventory.mcus@, checkout, inventory.mcus@.len() as int);
            &&& status_text(source, checkout, inventory, None) == head + revision_text(checkout)
                + "\n"@ + mcus
            &&& status_text(source, checkout, inventory, Some(refreshed)) == head + refresh_text(
                refreshed,
            ) + "\n"@ + mcus
        }),
{
}

/// An error is told after what it was met in, and its causes after it, each after a colon.
pub proof fn law_context_stands_before_the_causes(context: Seq<char>, cause: Seq<char>)
    ensures
        in_context(context, Seq::empty()) == context,
        in_context(context, seq![cause]) == context + ": "@ + cause,
{
    reveal_with_fuel(text::joined, 3);
    assert(seq![context] + Seq::<Seq<char>>::empty() =~= seq![context]);
    assert(seq![context].drop_last() =~= Seq::empty());
    let both = seq![context] + seq![cause];
    assert(both =~= seq![context, cause]);
    assert(both.drop_last() =~= seq![context]);
}

} // verus!
