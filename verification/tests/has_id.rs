use api_bones::has_id::HasId;

struct Thing {
    id: u64,
}

impl HasId for Thing {
    type Id = u64;
    fn id(&self) -> &u64 {
        &self.id
    }
}

#[test]
fn id_is_displayable() {
    let t = Thing { id: 42 };
    assert_eq!(format!("{}", t.id()), "42");
}
