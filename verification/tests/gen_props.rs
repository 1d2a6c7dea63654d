use seeder::date::{parse_date, Date};
use seeder::record::{
    Address, Client, Contract, Employee, Payment, Project, Staff, Task, Technology,
};

fn valid_date(d: &Date) -> bool {
    // A date the engine accepts round-trips through its own text form.
    parse_date(&seeder::date::format_date(d)) == Some(*d)
}

#[test]
fn address_batch_exact_count_and_bounds() {
    let cities = vec!["Warsaw".to_string(), "Gdansk".to_string()];
    let streets = vec!["Main Street".to_string()];
    let batch = Address::generate_batch(40, &cities, &streets);
    assert_eq!(batch.len(), 40);
    for a in &batch {
        assert!(cities.contains(&a.city));
        assert!(streets.contains(&a.street));
        let n: u32 = a.street_number.parse().unwrap();
        assert!(1 <= n && n <= 200);
        assert_eq!(a.postal_code.len(), 6);
        let (left, rest) = a.postal_code.split_at(2);
        assert!(rest.starts_with('-'));
        let x: u32 = left.parse().unwrap();
        let y: u32 = rest[1..].parse().unwrap();
        assert!(10 <= x && x <= 99);
        assert!(100 <= y && y <= 999);
    }
}

#[test]
fn address_batch_empty_lists_fall_back() {
    let batch = Address::generate_batch(3, &vec![], &vec![]);
    assert_eq!(batch.len(), 3);
    for a in &batch {
        assert_eq!(a.city, "Default City");
        assert_eq!(a.street, "Default Street");
    }
}

#[test]
fn client_batch_exact_count_and_bounds() {
    let firsts = vec!["John".to_string(), "Anna".to_string()];
    let lasts = vec!["Doe".to_string()];
    let batch = Client::generate_batch(30, &firsts, &lasts).unwrap();
    assert_eq!(batch.len(), 30);
    let domains = ["gmail.com", "yahoo.com", "outlook.com", "example.com"];
    for c in &batch {
        assert!(firsts.contains(&c.first_name));
        assert!(lasts.contains(&c.last_name));
        let (local, domain) = c.email.split_once('@').unwrap();
        assert!(domains.contains(&domain));
        assert_eq!(
            local,
            format!(
                "{}.{}",
                c.first_name.to_lowercase(),
                c.last_name.to_lowercase()
            )
        );
        let digits = c.phone_number.strip_prefix("+48 ").unwrap();
        let n: u64 = digits.parse().unwrap();
        assert!(6_000_000_000 <= n && n < 9_000_000_000);
    }
    for i in 0..batch.len() {
        for j in (i + 1)..batch.len() {
            assert_ne!(batch[i].phone_number, batch[j].phone_number);
        }
    }
}

#[test]
fn client_batch_empty_lists_fall_back() {
    let batch = Client::generate_batch(2, &vec![], &vec![]).unwrap();
    for c in &batch {
        assert_eq!(c.first_name, "John");
        assert_eq!(c.last_name, "Doe");
        assert_eq!(c.email.split_once('@').unwrap().0, "john.doe");
    }
}

#[test]
fn contract_batch_exact_count_and_bounds() {
    let batch = Contract::generate_batch(25);
    assert_eq!(batch.len(), 25);
    let types = ["B2B", "UoP", "Mandate Contract", "Contract of Employment"];
    for c in &batch {
        assert!(types.contains(&c.type_of_contract.as_str()));
        assert!(3000 <= c.salary && c.salary <= 25000);
        assert!(valid_date(&c.start_date));
        assert!(valid_date(&c.end_date));
        let s = (c.start_date.year, c.start_date.month, c.start_date.day);
        let e = (c.end_date.year, c.end_date.month, c.end_date.day);
        assert!(s < e, "the end date strictly follows the start on the calendar");
    }
}

#[test]
fn employee_batch_exact_count_and_bounds() {
    let firsts = vec!["John".to_string()];
    let lasts = vec!["Doe".to_string(), "Kowalski".to_string()];
    let batch = Employee::generate_batch(30, &firsts, &lasts).unwrap();
    assert_eq!(batch.len(), 30);
    let positions = [
        "HR",
        "IT",
        "Finance",
        "Sales",
        "Administration",
        "Public Relations",
    ];
    let domains = ["company.com", "corporate.com", "business.com"];
    for e in &batch {
        assert!(positions.contains(&e.position.as_str()));
        let (_, domain) = e.email.split_once('@').unwrap();
        assert!(domains.contains(&domain));
        let digits = e.phone_number.strip_prefix("+48 ").unwrap();
        let n: u64 = digits.parse().unwrap();
        assert!(600_000_000 <= n && n < 999_999_999);
        assert!(2010 <= e.contract_date.year && e.contract_date.year <= 2024);
        assert!(valid_date(&e.contract_date));
    }
    for i in 0..batch.len() {
        for j in (i + 1)..batch.len() {
            assert_ne!(batch[i].phone_number, batch[j].phone_number);
        }
    }
}

#[test]
fn payment_batch_exact_count_and_bounds() {
    let batch = Payment::generate_batch(25);
    assert_eq!(batch.len(), 25);
    let methods = [
        "Credit Card",
        "Bank Transfer",
        "PayPal",
        "Cash",
        "Cryptocurrency",
    ];
    for p in &batch {
        assert!(1000 <= p.amount_cents && p.amount_cents <= 1_000_000);
        assert!(methods.contains(&p.method.as_str()));
        assert!(valid_date(&p.payment_due_date));
    }
}

#[test]
fn project_batch_exact_count_and_bounds() {
    let batch = Project::generate_batch(25);
    assert_eq!(batch.len(), 25);
    let names = ["Project A", "Project B", "Project C", "Project D"];
    let statuses = ["Not Started", "In Progress", "Completed"];
    for p in &batch {
        assert!(names.contains(&p.name.as_str()));
        assert!(statuses.contains(&p.status.as_str()));
        assert!(2022 <= p.start_date.year && p.start_date.year <= 2024);
        assert!(p.start_date.year <= p.end_date.year && p.end_date.year <= 2025);
        assert!(valid_date(&p.start_date));
        assert!(valid_date(&p.end_date));
        assert!(!p.description.is_empty());
    }
}

#[test]
fn task_batch_exact_count_and_bounds() {
    let batch = Task::generate_batch(25);
    assert_eq!(batch.len(), 25);
    let names = ["Task A", "Task B", "Task C", "Task D"];
    let statuses = ["Not Started", "In Progress", "Completed"];
    for t in &batch {
        assert!(names.contains(&t.name.as_str()));
        assert!(statuses.contains(&t.status.as_str()));
        assert!(t.start_date.year <= t.end_date.year);
        assert!(valid_date(&t.start_date));
        assert!(valid_date(&t.end_date));
        assert!(!t.description.is_empty());
    }
}

#[test]
fn technology_batch_pairs_names_with_their_descriptions() {
    let batch = Technology::generate_batch(50);
    assert_eq!(batch.len(), 50);
    let canonical = vec![
        ("Rust Programming", "A systems programming language focused on performance and safety."),
        ("Machine Learning", "A subset of artificial intelligence that focuses on algorithms and models that allow machines to learn from data."),
        ("Blockchain", "A decentralized technology for secure and transparent transactions."),
        ("Quantum Computing", "A new field of computing that uses quantum mechanics to process information."),
        ("Artificial Intelligence", "A field of study in computer science that involves creating intelligent machines capable of performing tasks that usually require human intelligence."),
        ("Cloud Computing", "A model of computing where services and resources are provided over the internet."),
        ("Internet of Things", "A network of physical devices, vehicles, buildings, and other objects embedded with sensors and software for the purpose of connecting and exchanging data."),
    ];
    for t in &batch {
        assert!(
            canonical
                .iter()
                .any(|(n, d)| t.name() == n && t.description() == d),
            "a name must come with its own description, never another's"
        );
    }
}

#[test]
fn staff_batch_exact_count_and_bounds() {
    let names = vec!["Anna".to_string(), "Piotr".to_string()];
    let batch = Staff::generate_batch(20, &names).unwrap();
    assert_eq!(batch.len(), 20);
    for s in &batch {
        assert!(names.contains(&s.name));
        assert!(["HR", "IT", "Finance", "Sales"].contains(&s.department.as_str()));
        assert!(5000 <= s.salary && s.salary < 75000);
        assert!(valid_date(&s.hire_date));
    }
}

#[test]
fn staff_batch_empty_list_falls_back() {
    let batch = Staff::generate_batch(2, &vec![]).unwrap();
    for s in &batch {
        assert_eq!(s.name, "John");
    }
}

#[test]
fn generate_all_produces_eight_batches() {
    let lists = seeder::gen::WordLists {
        first_names: vec!["John".to_string()],
        last_names: vec!["Doe".to_string()],
        cities: vec!["Warsaw".to_string()],
        streets: vec!["Main Street".to_string()],
    };
    let batch = seeder::dispatch::generate_all(5, &lists).unwrap();
    assert_eq!(batch.len(), 40);
}
