use ctfd_pwn_college::pwncollege::{
    Challenge, Module, ModuleAPIResponse, PWNCollegeClient, Solve, SolvesAPIResponse,
};
use ctfd_pwn_college::remote::RemoteApiError;
use ctfd_pwn_college::text::{decimal, natural};

fn text(s: &str) -> String {
    String::from(s)
}

fn module(id: &str, name: &str, challenges: &[(&str, &str)]) -> Module {
    Module {
        id: text(id),
        name: text(name),
        challenges: challenges
            .iter()
            .map(|(id, name)| Challenge { id: text(id), name: text(name) })
            .collect(),
    }
}

fn course() -> Vec<Module> {
    vec![
        module("m1", "Module One", &[("ch1", "Intro"), ("ch3", "Basics")]),
        module("m2", "Module Two", &[]),
        module("m1", "Shadow", &[("x", "Hidden")]),
    ]
}

fn solve(module: &str, challenge: &str) -> Solve {
    Solve { module_id: text(module), challenge_id: text(challenge) }
}

#[test]
fn upstream_addresses_extend_the_base() {
    let c = PWNCollegeClient::new();
    assert_eq!(c.dojo(), "intro-to-cybersecurity");
    assert_eq!(
        c.modules_url("intro-to-cybersecurity"),
        "https://pwn.college//pwncollege_api/v1/dojos/intro-to-cybersecurity/modules"
    );
    assert_eq!(
        c.solves_url("intro-to-cybersecurity", "alice"),
        "https://pwn.college//pwncollege_api/v1/dojos/intro-to-cybersecurity/solves?username=alice"
    );
}

#[test]
fn modules_are_the_data_of_the_answer() {
    let c = PWNCollegeClient::new();
    let full = ModuleAPIResponse { success: true, errors: None, modules: Some(course()) };
    assert_eq!(c.get_modules_from_dojo(full), Ok(course()));
    let empty: ModuleAPIResponse<Vec<Module>> =
        ModuleAPIResponse { success: false, errors: Some(vec![text("no")]), modules: None };
    assert_eq!(c.get_modules_from_dojo(empty), Err(RemoteApiError::Missing));
}

#[test]
fn challenges_are_those_of_the_first_module_of_that_id() {
    let c = PWNCollegeClient::new();
    assert_eq!(
        c.get_challenges_for_module(&course(), "m1"),
        Ok(vec![text("Intro"), text("Basics")])
    );
    assert_eq!(c.get_challenges_for_module(&course(), "m2"), Ok(Vec::new()));
    assert_eq!(c.get_challenges_for_module(&course(), "m3"), Err(RemoteApiError::NotFound));
    assert_eq!(c.get_challenges_for_module(&Vec::new(), "m1"), Err(RemoteApiError::NotFound));
}

#[test]
fn pretty_name_is_that_of_the_first_module_of_that_id() {
    let c = PWNCollegeClient::new();
    assert_eq!(c.pretty_print_module(&course(), "m1"), Ok(text("Module One")));
    assert_eq!(c.pretty_print_module(&course(), "m2"), Ok(text("Module Two")));
    assert_eq!(c.pretty_print_module(&course(), "Module One"), Err(RemoteApiError::NotFound));
}

#[test]
fn solves_are_filtered_by_module_and_keep_their_order() {
    let c = PWNCollegeClient::new();
    let response = SolvesAPIResponse {
        success: true,
        errors: None,
        solves: Some(vec![
            solve("m1", "ch3"),
            solve("m2", "h1"),
            solve("m1", "ch1"),
            solve("m1", "ch3"),
        ]),
    };
    assert_eq!(
        c.get_solves_by_user_for_module(&response, "m1"),
        Ok(vec![text("ch3"), text("ch1"), text("ch3")])
    );
    assert_eq!(c.get_solves_by_user_for_module(&response, "m2"), Ok(vec![text("h1")]));
    assert_eq!(c.get_solves_by_user_for_module(&response, "m3"), Ok(Vec::new()));
    let none: SolvesAPIResponse<Vec<Solve>> =
        SolvesAPIResponse { success: false, errors: None, solves: None };
    assert_eq!(c.get_solves_by_user_for_module(&none, "m1"), Err(RemoteApiError::Missing));
}

#[test]
fn decimal_text_is_what_the_standard_library_prints() {
    for n in [0i64, 1, 9, 10, 11, 99, 100, 101, 1234, 9_007_199_254_740_993, i64::MAX] {
        assert_eq!(decimal(n), n.to_string());
    }
    for n in [-1i64, -9, -10, -1234, i64::MIN + 1, i64::MIN] {
        assert_eq!(decimal(n), n.to_string());
    }
    for n in [0u64, 7, 10, 1_000_000, u64::MAX] {
        assert_eq!(natural(n), n.to_string());
    }
    assert_eq!(decimal(-42), "-42");
    assert_eq!(natural(18_446_744_073_709_551_615), "18446744073709551615");
}
