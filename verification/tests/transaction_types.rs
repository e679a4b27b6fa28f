use ten10::transaction_types::{
    donation_types_case_condition, donation_types_condition, expense_types_case_condition,
    expense_types_condition, income_types_case_condition, income_types_condition, DONATION_TYPES,
    EXPENSE_TYPES, INCOME_TYPES,
};

#[test]
fn test_income_types_condition() {
    let condition = income_types_condition();
    assert!(condition.contains("income"));
    assert!(condition.contains("exempt-income"));
}

#[test]
fn test_donation_types_condition() {
    let condition = donation_types_condition();
    assert!(condition.contains("donation"));
    assert!(condition.contains("non_tithe_donation"));
}

#[test]
fn test_expense_types_condition() {
    let condition = expense_types_condition();
    assert!(condition.contains("expense"));
    assert!(condition.contains("recognized-expense"));
}

#[test]
fn where_conditions_are_exact() {
    assert_eq!(income_types_condition(), "(type = 'income' OR type = 'exempt-income')");
    assert_eq!(donation_types_condition(), "(type = 'donation' OR type = 'non_tithe_donation')");
    assert_eq!(expense_types_condition(), "(type = 'expense' OR type = 'recognized-expense')");
}

#[test]
fn case_conditions_are_exact() {
    assert_eq!(
        income_types_case_condition(),
        "CASE WHEN type = 'income' OR type = 'exempt-income' THEN amount ELSE 0 END"
    );
    assert_eq!(
        donation_types_case_condition(),
        "CASE WHEN type = 'donation' OR type = 'non_tithe_donation' THEN amount ELSE 0 END"
    );
    assert_eq!(
        expense_types_case_condition(),
        "CASE WHEN type = 'expense' OR type = 'recognized-expense' THEN amount ELSE 0 END"
    );
}

#[test]
fn type_groups_hold_two_names_each() {
    assert_eq!(INCOME_TYPES, ["income", "exempt-income"]);
    assert_eq!(DONATION_TYPES, ["donation", "non_tithe_donation"]);
    assert_eq!(EXPENSE_TYPES, ["expense", "recognized-expense"]);
}
