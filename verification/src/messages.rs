//! The texts the service replies with and posts to its Telegram chat.

use vstd::prelude::*;
use vstd::string::*;
use crate::text::{decimal, push_decimal};

verus! {

/// The chat report of a new block.
pub fn block_report(index: u32, hash: &str, validator: &str, transaction_count: usize) -> (report:
    String)
    ensures
        report@ == "📦 *Новый блок #"@ + decimal(index as nat) + "*\n Hash: `"@ + hash@
            + "`\n Валидатор: `"@ + validator@ + "`\n Транзакций: "@ + decimal(
            transaction_count as nat,
        ),
{
    let mut report = String::from_str("📦 *Новый блок #");
    push_decimal(&mut report, index as u64);
    report.append("*\n Hash: `");
    report.append(hash);
    report.append("`\n Валидатор: `");
    report.append(validator);
    report.append("`\n Транзакций: ");
    push_decimal(&mut report, transaction_count as u64);
    report
}

/// The reply to a block that was added.
pub fn block_added_message(index: u32) -> (message: String)
    ensures
        message@ == "Блок #"@ + decimal(index as nat) + " успешно добавлен в сеть"@,
{
    let mut message = String::from_str("Блок #");
    push_decimal(&mut message, index as u64);
    message.append(" успешно добавлен в сеть");
    message
}

/// The reply to a group that was created.
pub fn group_created_message(group_id: &str) -> (message: String)
    ensures
        message@ == "Группа "@ + group_id@ + " создана"@,
{
    String::from_str("Группа ").concat(group_id).concat(" создана")
}

/// The reply to a member that joined a group.
pub fn group_joined_message(group_id: &str) -> (message: String)
    ensures
        message@ == "Вы успешно вступили в группу "@ + group_id@,
{
    String::from_str("Вы успешно вступили в группу ").concat(group_id)
}

/// The chat notice of a member that joined a group.
pub fn new_member_notice(group_id: &str, address: &str) -> (notice: String)
    ensures
        notice@ == "👥 Новый участник в группе `"@ + group_id@ + "`!\nАдрес: `"@ + address@ + "`"@,
{
    String::from_str("👥 Новый участник в группе `").concat(group_id).concat("`!\nАдрес: `").concat(
        address,
    ).concat("`")
}

} // verus!
