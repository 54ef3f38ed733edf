use medicine_tracker::models::medicine::{ApiMedicine, Medicine};
use medicine_tracker::order::sort_naturally;

#[test]
fn test_medicine_new() {
    let medicine = Medicine::new("Aspirin".to_string(), 500.0, "mg".to_string(), 100.0);

    assert_eq!(medicine.name, "Aspirin");
    assert_eq!(medicine.dose, 500.0);
    assert_eq!(medicine.unit, "mg");
    assert_eq!(medicine.stock, 100.0);
    assert!(!medicine.id.is_empty());
}

#[test]
fn test_medicine_with_id() {
    let id = "test-id-123".to_string();
    let medicine =
        Medicine::with_id(id.clone(), "Ibuprofen".to_string(), 200.0, "mg".to_string(), 50.0);

    assert_eq!(medicine.id, id);
    assert_eq!(medicine.name, "Ibuprofen");
    assert_eq!(medicine.dose, 200.0);
    assert_eq!(medicine.unit, "mg");
    assert_eq!(medicine.stock, 50.0);
}

#[test]
fn test_medicine_add_stock() {
    let medicine = Medicine::new("Paracetamol".to_string(), 500.0, "mg".to_string(), 100.0);

    let updated = medicine.add_stock(50.0);
    assert_eq!(updated.stock, 150.0);
    assert_eq!(updated.name, medicine.name);
    assert_eq!(updated.dose, medicine.dose);
    assert_eq!(updated.unit, medicine.unit);
}

#[test]
fn test_medicine_display() {
    let medicine = Medicine::new("Vitamin C".to_string(), 1000.0, "mg".to_string(), 200.0);

    let display = medicine.to_string();
    assert_eq!(display, "Vitamin C (1000 mg)");
}

#[test]
fn test_medicine_ordering() {
    let medicine1 = Medicine::new("Aspirin".to_string(), 500.0, "mg".to_string(), 100.0);
    let medicine2 = Medicine::new("Ibuprofen".to_string(), 200.0, "mg".to_string(), 50.0);
    let medicine3 = Medicine::new("Paracetamol".to_string(), 500.0, "mg".to_string(), 75.0);

    let medicines = vec![medicine1.clone(), medicine2.clone(), medicine3.clone()];
    let medicines = sort_naturally(medicines);

    assert_eq!(medicines[0].name, "Aspirin");
    assert_eq!(medicines[1].name, "Ibuprofen");
    assert_eq!(medicines[2].name, "Paracetamol");
}

#[test]
fn test_api_medicine_to_medicine() {
    let api_medicine = ApiMedicine {
        name: "Test Medicine".to_string(),
        dose: 250.0,
        unit: "mg".to_string(),
        stock: 25.0,
    };

    let medicine = api_medicine.to_medicine();

    assert_eq!(medicine.name, "Test Medicine");
    assert_eq!(medicine.dose, 250.0);
    assert_eq!(medicine.unit, "mg");
    assert_eq!(medicine.stock, 25.0);
    assert!(!medicine.id.is_empty());
}

#[test]
fn test_api_medicine_to_medicine_with_id() {
    let api_medicine = ApiMedicine {
        name: "Test Medicine".to_string(),
        dose: 250.0,
        unit: "mg".to_string(),
        stock: 25.0,
    };

    let id = "custom-id-123".to_string();
    let medicine = api_medicine.to_medicine_with_id(id.clone());

    assert_eq!(medicine.id, id);
    assert_eq!(medicine.name, "Test Medicine");
    assert_eq!(medicine.dose, 250.0);
    assert_eq!(medicine.unit, "mg");
    assert_eq!(medicine.stock, 25.0);
}
