use label_printer::label_layout::{LabelLayout, LabelPosition};
use label_printer::label_service::LabelService;
use label_printer::zpl::ZplGenerator;

#[test]
fn test_default_layout() {
    let layout = LabelLayout::default();
    assert_eq!(layout.label_width_dots, 400);
    assert_eq!(layout.label_height_dots, 400);
    assert_eq!(layout.columns, 2);
    assert_eq!(layout.dpi, 203);
}

#[test]
fn test_total_width() {
    let layout = LabelLayout::default();
    assert_eq!(layout.total_width(), 800);
}

#[test]
fn test_label_positions() {
    let layout = LabelLayout::default();
    assert_eq!(layout.label_x(0), 50);
    assert_eq!(layout.label_x(1), 450);
    assert_eq!(layout.label_y(0), 50);
    assert_eq!(layout.label_y(1), 450);
}

#[test]
fn part_positions_within_a_label() {
    let layout = LabelLayout::new(300, 200, 3, 300);
    assert_eq!(layout.title_position(2, 1), (650, 250));
    assert_eq!(layout.barcode_position(2, 1), (650, 300));
    assert_eq!(layout.code_text_position(2, 1), (650, 410));
    assert_eq!(layout.total_height(3), 600);
    assert_eq!(layout.margin_x, 50);
    assert_eq!(layout.barcode_height, 100);
    assert_eq!(layout.title_font_size, 30);
    assert_eq!(layout.code_font_size, 25);
}

#[test]
fn test_generate_codes() {
    let service = LabelService::new();
    let codes = service.generate_codes("Z0000000", 3).unwrap();
    assert_eq!(codes, vec!["Z0000001", "Z0000002", "Z0000003"]);
}

#[test]
fn generate_codes_refusals() {
    let service = LabelService::new();
    assert!(service.generate_codes("Z0000000", 0).is_err());
    assert!(service.generate_codes("0000000", 2).is_err());
}

#[test]
fn test_calculate_positions() {
    let service = LabelService::new();
    let codes = vec![
        "Z0000001".to_string(),
        "Z0000002".to_string(),
        "Z0000003".to_string(),
        "Z0000004".to_string(),
    ];
    let positions = service.calculate_positions(&codes, 2);
    assert_eq!(
        positions,
        vec![
            ("Z0000001".to_string(), LabelPosition { row: 0, column: 0 }),
            ("Z0000002".to_string(), LabelPosition { row: 0, column: 1 }),
            ("Z0000003".to_string(), LabelPosition { row: 1, column: 0 }),
            ("Z0000004".to_string(), LabelPosition { row: 1, column: 1 }),
        ]
    );
}

#[test]
fn positions_fill_rows_left_to_right() {
    let service = LabelService::default();
    let codes: Vec<String> = (0..7).map(|i| format!("Z000000{}", i)).collect();
    let positions = service.calculate_positions(&codes, 3);
    for (i, (_, p)) in positions.iter().enumerate() {
        assert!(p.column < 3);
        assert_eq!((p.row * 3 + p.column) as usize, i);
    }
    assert!(service.calculate_positions(&[], 0).is_empty());
}

#[test]
fn test_generate_single_label() {
    let generator = ZplGenerator::default();
    let labels = vec![("Z0000001".to_string(), LabelPosition { row: 0, column: 0 })];
    let zpl = generator.generate_batch(&labels, "26/08/2026 07:15:32");

    assert!(zpl.starts_with("^XA"));
    assert!(zpl.ends_with("^XZ\n"));
    assert!(zpl.contains("Z0000001"));
    assert!(zpl.contains("26/08/2026 07:15:32"));
    assert!(zpl.contains("^BCN"));
}

#[test]
fn test_generate_two_labels() {
    let generator = ZplGenerator::default();
    let labels = vec![
        ("Z0000001".to_string(), LabelPosition { row: 0, column: 0 }),
        ("Z0000002".to_string(), LabelPosition { row: 0, column: 1 }),
    ];
    let zpl = generator.generate_batch(&labels, "26/08/2026 07:15:32");

    assert!(zpl.contains("Z0000001"));
    assert!(zpl.contains("Z0000002"));
}

#[test]
fn test_generate_odd_quantity_no_phantom() {
    let generator = ZplGenerator::default();
    let labels = vec![
        ("Z0000001".to_string(), LabelPosition { row: 0, column: 0 }),
        ("Z0000002".to_string(), LabelPosition { row: 0, column: 1 }),
        ("Z0000003".to_string(), LabelPosition { row: 1, column: 0 }),
    ];
    let zpl = generator.generate_batch(&labels, "26/08/2026 07:15:32");

    assert!(zpl.contains("Z0000001"));
    assert!(zpl.contains("Z0000002"));
    assert!(zpl.contains("Z0000003"));
    assert!(!zpl.contains("Z0000004"));
    assert!(zpl.contains("^LL800"));
}

#[test]
fn test_generate_empty_batch() {
    let generator = ZplGenerator::default();
    let labels = vec![];
    let zpl = generator.generate_batch(&labels, "26/08/2026 07:15:32");

    assert!(zpl.starts_with("^XA"));
    assert!(zpl.ends_with("^XZ\n"));
    assert!(zpl.contains("^LL0"));
}

#[test]
fn test_generate_batch_by_rows_single_row() {
    let generator = ZplGenerator::default();
    let labels = vec![
        ("Z0000001".to_string(), LabelPosition { row: 0, column: 0 }),
        ("Z0000002".to_string(), LabelPosition { row: 0, column: 1 }),
    ];
    let batches = generator.generate_batch_by_rows(&labels, "26/08/2026 07:15:32");

    assert_eq!(batches.len(), 1);
    assert!(batches[0].starts_with("^XA"));
    assert!(batches[0].ends_with("^XZ\n"));
    assert!(batches[0].contains("Z0000001"));
    assert!(batches[0].contains("Z0000002"));
    assert!(batches[0].contains("^LL400"));
}

#[test]
fn test_generate_batch_by_rows_multiple_rows() {
    let generator = ZplGenerator::default();
    let labels = vec![
        ("Z0000001".to_string(), LabelPosition { row: 0, column: 0 }),
        ("Z0000002".to_string(), LabelPosition { row: 0, column: 1 }),
        ("Z0000003".to_string(), LabelPosition { row: 1, column: 0 }),
        ("Z0000004".to_string(), LabelPosition { row: 1, column: 1 }),
    ];
    let batches = generator.generate_batch_by_rows(&labels, "26/08/2026 07:15:32");

    assert_eq!(batches.len(), 2);
    assert!(batches[0].contains("Z0000001"));
    assert!(batches[0].contains("Z0000002"));
    assert!(!batches[0].contains("Z0000003"));
    assert!(!batches[0].contains("Z0000004"));
    assert!(batches[1].contains("Z0000003"));
    assert!(batches[1].contains("Z0000004"));
    assert!(!batches[1].contains("Z0000001"));
    assert!(!batches[1].contains("Z0000002"));
}

#[test]
fn test_generate_batch_by_rows_odd_quantity() {
    let generator = ZplGenerator::default();
    let labels = vec![
        ("Z0000001".to_string(), LabelPosition { row: 0, column: 0 }),
        ("Z0000002".to_string(), LabelPosition { row: 0, column: 1 }),
        ("Z0000003".to_string(), LabelPosition { row: 1, column: 0 }),
    ];
    let batches = generator.generate_batch_by_rows(&labels, "26/08/2026 07:15:32");

    assert_eq!(batches.len(), 2);
    assert!(batches[0].contains("Z0000001"));
    assert!(batches[0].contains("Z0000002"));
    assert!(batches[1].contains("Z0000003"));
    assert!(!batches[1].contains("Z0000004"));
}

#[test]
fn test_generate_batch_by_rows_empty() {
    let generator = ZplGenerator::default();
    let labels = vec![];
    let batches = generator.generate_batch_by_rows(&labels, "26/08/2026 07:15:32");

    assert_eq!(batches.len(), 1);
    assert!(batches[0].starts_with("^XA"));
    assert!(batches[0].ends_with("^XZ\n"));
}

#[test]
fn exact_zpl_of_one_label() {
    let generator = ZplGenerator::new(LabelLayout::new(400, 300, 1, 203));
    let labels = vec![("Z0000007".to_string(), LabelPosition { row: 1, column: 0 })];
    let zpl = generator.generate_batch(&labels, "T");
    let expected = "^XA\n^PW400\n^LL300\n\
^FO50,350\n^A@N,30,30\n^FDT\n^FS\n\
^FO50,400\n^BY2\n^BCN,100,Y,N\n^FDZ0000007\n^FS\n\
^FO50,510\n^A@N,25,25\n^FDZ0000007\n^FS\n\
^XZ\n";
    assert_eq!(zpl, expected);
}

#[test]
fn rows_come_in_increasing_order_and_are_normalized() {
    let generator = ZplGenerator::default();
    let labels = vec![
        ("A".to_string(), LabelPosition { row: 5, column: 1 }),
        ("B".to_string(), LabelPosition { row: 2, column: 0 }),
        ("C".to_string(), LabelPosition { row: 5, column: 0 }),
    ];
    let batches = generator.generate_batch_by_rows(&labels, "t");
    assert_eq!(batches.len(), 2);
    assert!(batches[0].contains("^FDB\n"));
    assert!(!batches[0].contains("^FDA\n"));
    let a = batches[1].find("^FDA\n").unwrap();
    let c = batches[1].find("^FDC\n").unwrap();
    assert!(a < c);
    assert!(batches[1].contains("^FO450,50\n"));
    assert!(batches[1].contains("^LL400\n"));
}
