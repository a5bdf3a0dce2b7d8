use session_demos::adder::adder_provider;
use session_demos::coin_exchange::{exchange, forge_dime, forge_nickel, vending_machine, DimeVal, Soda};
use session_demos::hello::greeter;
use session_demos::simple_calculator::{calculator_provider, CalculatorOps};

#[test]
fn greeter_greets_alice() {
    assert_eq!(greeter("Alice"), "Hello, Alice!");
}

#[test]
fn greeter_with_empty_name() {
    assert_eq!(greeter(""), "Hello, !");
}

#[test]
fn adder_adds_one_and_two() {
    assert_eq!(adder_provider(1, 2), 3);
}

#[test]
fn adder_at_the_edges() {
    assert_eq!(adder_provider(i32::MAX, 0), i32::MAX);
    assert_eq!(adder_provider(i32::MIN, i32::MAX), -1);
}

#[test]
fn calculator_three_plus_four_times_five() {
    let res1 = calculator_provider(CalculatorOps::Mult, (4, 5));
    assert_eq!(res1, 20);
    let res2 = calculator_provider(CalculatorOps::Add, (res1, 3));
    assert_eq!(res2, 23);
}

#[test]
fn calculator_with_negative_numbers() {
    assert_eq!(calculator_provider(CalculatorOps::Mult, (-7, 6)), -42);
    assert_eq!(calculator_provider(CalculatorOps::Add, (-7, 6)), -1);
}

#[test]
fn two_nickels_buy_a_soda() {
    let dime: DimeVal = exchange(forge_nickel(), forge_nickel());
    let _soda: Soda = vending_machine(dime);
    let _other: Soda = vending_machine(forge_dime());
}
