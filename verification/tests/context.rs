use jsworkers::context::{Context, Service, ServiceProperties};

struct Lamp {
    id: String,
}

impl Service for Lamp {
    fn get_properties(&self) -> ServiceProperties {
        ServiceProperties { id: self.id.clone() }
    }
}

#[test]
fn context_defaults() {
    let c: Context<Lamp> = Context::new(true, None);
    assert!(c.verbose);
    assert_eq!(c.hostname, "localhost");
    assert_eq!(c.http_port, 3000);
    assert_eq!(c.services_count(), 0);
    let c: Context<Lamp> = Context::new(false, Some("box.local".to_owned()));
    assert_eq!(c.hostname, "box.local");
}

#[test]
fn services_by_id() {
    let mut c = Context::new(false, None);
    c.add_service(Lamp { id: "l1".to_owned() });
    c.add_service(Lamp { id: "l2".to_owned() });
    assert_eq!(c.services_count(), 2);
    assert_eq!(c.get_service("l1").unwrap().id, "l1");
    c.add_service(Lamp { id: "l1".to_owned() });
    assert_eq!(c.services_count(), 2);
    c.remove_service("l1".to_owned());
    assert_eq!(c.services_count(), 1);
    assert!(c.get_service("l1").is_none());
    c.remove_service("nope".to_owned());
    assert_eq!(c.services_count(), 1);
}
