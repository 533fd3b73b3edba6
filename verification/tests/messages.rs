use mewchain::messages::{
    block_added_message, block_report, group_created_message, group_joined_message,
    new_member_notice,
};
use mewchain::text::decimal_string;

#[test]
fn decimal_numbers() {
    assert_eq!(decimal_string(0), "0");
    assert_eq!(decimal_string(7), "7");
    assert_eq!(decimal_string(10), "10");
    assert_eq!(decimal_string(1_234_567_890), "1234567890");
    assert_eq!(decimal_string(u64::MAX), u64::MAX.to_string());
}

#[test]
fn block_texts() {
    assert_eq!(
        block_report(42, "abc", "val1", 3),
        "📦 *Новый блок #42*\n Hash: `abc`\n Валидатор: `val1`\n Транзакций: 3"
    );
    assert_eq!(block_added_message(7), "Блок #7 успешно добавлен в сеть");
}

#[test]
fn group_texts() {
    assert_eq!(group_created_message("alpha"), "Группа alpha создана");
    assert_eq!(group_joined_message("alpha"), "Вы успешно вступили в группу alpha");
    assert_eq!(
        new_member_notice("alpha", "mew013bob"),
        "👥 Новый участник в группе `alpha`!\nАдрес: `mew013bob`"
    );
}
