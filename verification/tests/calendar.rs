use time::Month;

#[test]
#[allow(deprecated)]
fn days_from_month() {
    assert_eq!(time::util::days_in_year_month(2023, Month::January), 31);
    assert_eq!(time::util::days_in_year_month(2023, Month::February), 28);
    assert_eq!(time::util::days_in_year_month(2023, Month::March), 31);
    assert_eq!(time::util::days_in_year_month(2023, Month::April), 30);
    assert_eq!(time::util::days_in_year_month(2023, Month::May), 31);
    assert_eq!(time::util::days_in_year_month(2023, Month::June), 30);
    assert_eq!(time::util::days_in_year_month(2023, Month::July), 31);
    assert_eq!(time::util::days_in_year_month(2023, Month::August), 31);
    assert_eq!(time::util::days_in_year_month(2023, Month::September), 30);
    assert_eq!(time::util::days_in_year_month(2023, Month::October), 31);
    assert_eq!(time::util::days_in_year_month(2023, Month::November), 30);
    assert_eq!(time::util::days_in_year_month(2023, Month::December), 31);

    // leap years
    assert_eq!(time::util::days_in_year_month(2024, Month::February), 29);
}
