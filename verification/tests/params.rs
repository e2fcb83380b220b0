use mdfx::components::params::{
    is_valid_metric, is_valid_tech_param, metrics_for_source, params_for_visualization, tech_params,
    unknown_tech_params, valid_live_sources, valid_tech_param_names,
};
use mdfx::numeric::is_float_text;

#[test]
fn live_sources_and_metrics() {
    let sources = valid_live_sources();
    assert_eq!(sources.len(), 10);
    assert_eq!(sources[0], "github");
    assert!(sources.contains(&"npm"));
    assert!(sources.contains(&"nuget"));
    let github = metrics_for_source("github").unwrap();
    assert_eq!(github[0], ("stars", "Repository star count"));
    assert!(metrics_for_source("unknown").is_none());
    assert!(is_valid_metric("github", "forks"));
    assert!(!is_valid_metric("github", "downloads"));
    assert!(!is_valid_metric("nowhere", "stars"));
}

#[test]
fn tech_param_names_known() {
    let names = valid_tech_param_names();
    assert_eq!(names.len(), tech_params().len());
    assert_eq!(names[0], "label");
    assert!(is_valid_tech_param("bg_left"));
    assert!(is_valid_tech_param("logo_size"));
    assert!(!is_valid_tech_param("colour"));
    assert_eq!(unknown_tech_params(&["bg", "colour", "label", "size_x"]), vec!["colour", "size_x"]);
    let logo = tech_params().into_iter().find(|p| p.name == "logo_size").unwrap();
    assert_eq!(logo.values.unwrap()[0], ("xs", "10px - Extra small"));
}

#[test]
fn visualization_params_by_component() {
    assert_eq!(params_for_visualization("progress").unwrap().len(), 12);
    assert_eq!(params_for_visualization("rating").unwrap().len(), 6);
    assert_eq!(params_for_visualization("waveform").unwrap()[0].name, "width");
    assert!(params_for_visualization("swatch").is_none());
}

#[test]
fn float_texts_match_std() {
    let cases = [
        "0", "3.5", "-2", "+7", "1e10", "1E-3", "2.5e+4", ".5", "5.", "inf", "INF", "-Infinity", "nan", "NaN",
        "", ".", "e", "1e", "+", "-.", "1.2.3", " 1", "1 ", "0x10", "1_000", "infinit", "abc", "١", "1e+",
    ];
    for c in cases {
        let chars: Vec<char> = c.chars().collect();
        assert_eq!(is_float_text(&chars), c.parse::<f32>().is_ok(), "case {:?}", c);
    }
}
