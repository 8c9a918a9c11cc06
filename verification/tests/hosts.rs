use hostid::hosts::find_host_address;

fn lookup(table: &str, name: &str) -> Option<String> {
    let table: Vec<char> = table.chars().collect();
    let name: Vec<char> = name.chars().collect();
    find_host_address(&table, &name).map(|a| a.iter().collect())
}

#[test]
fn the_first_tab_field_of_the_matching_line_is_the_address() {
    let table = "127.0.0.1\tlocalhost\n10.0.1.28\tmyhost\tmyhost.example\n";
    assert_eq!(lookup(table, "myhost"), Some(String::from("10.0.1.28")));
    assert_eq!(lookup(table, "localhost"), Some(String::from("127.0.0.1")));
}

#[test]
fn the_last_matching_line_wins() {
    let table = "10.0.0.5\tmyhost\n192.168.7.7\tother\n10.0.1.28\tmyhost\n172.16.0.1\tthird\n";
    assert_eq!(lookup(table, "myhost"), Some(String::from("10.0.1.28")));
}

#[test]
fn a_name_that_no_line_holds_has_no_address() {
    let table = "127.0.0.1\tlocalhost\n10.0.1.28\tmyhost\n";
    assert_eq!(lookup(table, "elsewhere"), None);
    assert_eq!(lookup("", "myhost"), None);
}

#[test]
fn matching_is_by_containment_anywhere_in_the_line() {
    let table = "127.0.0.1\tlocalhost\n10.0.1.28\tmyhost2\n";
    assert_eq!(lookup(table, "host"), Some(String::from("10.0.1.28")));
    assert_eq!(lookup(table, "myhost"), Some(String::from("10.0.1.28")));
    assert_eq!(lookup(table, "27.0"), Some(String::from("127.0.0.1")));
    assert_eq!(lookup(table, "0.0.1"), Some(String::from("10.0.1.28")));
    assert_eq!(lookup("# myhost is down\n", "myhost"), Some(String::from("# myhost is down")));
}

#[test]
fn a_line_without_a_tab_is_its_own_first_field() {
    assert_eq!(lookup("10.0.1.28 myhost\n", "myhost"), Some(String::from("10.0.1.28 myhost")));
}

#[test]
fn the_empty_name_matches_every_line() {
    assert_eq!(lookup("10.0.1.28\tmyhost", ""), Some(String::from("10.0.1.28")));
    assert_eq!(lookup("10.0.1.28\tmyhost\n", ""), Some(String::new()));
    assert_eq!(lookup("", ""), Some(String::new()));
}
