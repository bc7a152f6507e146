use rust4diva::downloads::DownloadCoordinator;
use rust4diva::error::GbError;
use rust4diva::gamebanana::GBMod;
use rust4diva::gamebanana::GbModDownload;
use rust4diva::oneclick::after_forward;
use rust4diva::oneclick::handle_dmm_oneclick;
use rust4diva::oneclick::parse_dmm_url;
use rust4diva::oneclick::plan_startup;
use rust4diva::oneclick::resolve_file;
use rust4diva::oneclick::Forwarded;
use rust4diva::oneclick::GbDmmItem;
use rust4diva::oneclick::Startup;
use rust4diva::oneclick::DMM_PREFIX;

fn file(id: u32, name: &str) -> GbModDownload {
    GbModDownload {
        id,
        file: name.to_string(),
        filesize: 1000,
        description: String::new(),
        date_added: 0,
        download_count: 0,
        md5_checksum: String::new(),
        download_url: format!("https://gamebanana.com/dl/{}", id),
        clam_av_result: String::new(),
        avast_av_result: String::new(),
        analysis_state: String::new(),
        analysis_result: String::new(),
        analysis_result_code: String::new(),
        contains_exe: false,
    }
}

fn link(rest: &str) -> String {
    format!("{}{}", DMM_PREFIX, rest)
}

fn request(file_id: &str) -> GbDmmItem {
    GbDmmItem { item_id: "1".to_string(), itemtype: "Mod".to_string(), file_id: file_id.to_string() }
}

#[test]
fn parse_reads_the_three_parts() {
    let item = parse_dmm_url("divamodmanager:https://gamebanana.com/mmdl/123,Mod,456".to_string()).expect("a link");
    assert_eq!(item.file_id, "123");
    assert_eq!(item.itemtype, "Mod");
    assert_eq!(item.item_id, "456");
}

#[test]
fn parse_reads_short_and_odd_parts() {
    let item = parse_dmm_url(link("0,x,9")).expect("a link");
    assert_eq!((item.file_id.as_str(), item.itemtype.as_str(), item.item_id.as_str()), ("0", "x", "9"));
    let item = parse_dmm_url(link("007,So und,00")).expect("a link");
    assert_eq!((item.file_id.as_str(), item.itemtype.as_str(), item.item_id.as_str()), ("007", "So und", "00"));
    let item = parse_dmm_url(link("1,12,3")).expect("a link");
    assert_eq!(item.itemtype, "12");
    let item = parse_dmm_url(link("1,\u{e9}\u{1f3b5},3")).expect("a link");
    assert_eq!(item.itemtype, "\u{e9}\u{1f3b5}");
}

#[test]
fn parse_refuses_other_shapes() {
    let refused = [
        String::new(),
        "https://gamebanana.com/mmdl/123,Mod,456".to_string(),
        "divamodmanager:https://gamebanana.com/mmdl".to_string(),
        "Divamodmanager:https://gamebanana.com/mmdl/123,Mod,456".to_string(),
        "divamodmanager:https://gamebanana.com/dl/123,Mod,456".to_string(),
        link(""),
        link("123"),
        link("123,"),
        link("123,Mod"),
        link("123,Mod,"),
        link(",Mod,456"),
        link("123,,456"),
        link("12a,Mod,456"),
        link("123,Mod,45b"),
        link("123,Mod,456 "),
        link(" 123,Mod,456"),
        link("123 ,Mod,456"),
        link("123,Mod, 456"),
        link("123,Mod,456,7"),
        link("123,Mo,d,456"),
        link("123,Mod,456\n"),
        link("-1,Mod,456"),
        link("\u{0661},Mod,456"),
        format!(" {}", link("123,Mod,456")),
    ];
    for url in refused {
        assert_eq!(parse_dmm_url(url.clone()), None, "{:?}", url);
    }
}

#[test]
fn plan_startup_forwards_the_first_link() {
    let args = vec!["app".to_string(), "--flag".to_string(), link("1,Mod,2"), link("3,Mod,4")];
    assert_eq!(plan_startup(&args), Startup::Forward(link("1,Mod,2")));
}

#[test]
fn plan_startup_without_link_runs_locally() {
    assert_eq!(plan_startup(&vec!["app".to_string(), "x,y,z".to_string()]), Startup::RunLocal);
    assert_eq!(plan_startup(&Vec::new()), Startup::RunLocal);
}

#[test]
fn after_forward_exits_only_when_delivered() {
    assert_eq!(after_forward(link("1,Mod,2"), true), Forwarded::Exit);
    assert_eq!(after_forward(link("1,Mod,2"), false), Forwarded::HandleLocally(link("1,Mod,2")));
}

#[test]
fn resolve_file_matches_the_decimal_identifier() {
    let detail = GBMod { name: "m".to_string(), files: vec![file(7, "a.zip"), file(70, "b.zip"), file(7, "c.zip")], text: String::new() };
    assert_eq!(resolve_file(&request("70"), &detail).map(|f| f.file.as_str()), Some("b.zip"));
    assert_eq!(resolve_file(&request("7"), &detail).map(|f| f.file.as_str()), Some("a.zip"));
    assert!(resolve_file(&request("07"), &detail).is_none());
    assert!(resolve_file(&request("8"), &detail).is_none());
    assert!(resolve_file(&request(""), &detail).is_none());
}

#[test]
fn oneclick_queues_the_requested_file() {
    let mut downloads = DownloadCoordinator::new();
    let detail = Some(GBMod { name: "m".to_string(), files: vec![file(7, "a.zip"), file(9, "b.zip")], text: String::new() });
    let queued = handle_dmm_oneclick(&mut downloads, &request("9"), &detail).expect("queued");
    assert_eq!(queued.position, 0);
    assert!(queued.fresh);
    assert_eq!(queued.task.id, 9);
    assert_eq!(queued.task.name, "b.zip");
    assert_eq!(queued.task.url, "https://gamebanana.com/dl/9");
    assert_eq!(queued.task.progress, 0);
    assert!(!queued.task.failed);
    assert_eq!(downloads.len(), 1);
    let again = handle_dmm_oneclick(&mut downloads, &request("9"), &detail).expect("found");
    assert!(!again.fresh);
    assert_eq!(again.position, 0);
    assert_eq!(downloads.len(), 1);
}

#[test]
fn oneclick_without_file_is_not_found() {
    let mut downloads = DownloadCoordinator::new();
    let detail = Some(GBMod { name: "m".to_string(), files: vec![file(7, "a.zip")], text: String::new() });
    assert_eq!(handle_dmm_oneclick(&mut downloads, &request("8"), &detail).err(), Some(GbError::NotFound));
    assert_eq!(handle_dmm_oneclick(&mut downloads, &request("7"), &None).err(), Some(GbError::NotFound));
    assert_eq!(downloads.len(), 0);
}

#[test]
fn oneclick_announces_the_old_length_as_position() {
    let mut downloads = DownloadCoordinator::new();
    let detail = Some(GBMod { name: "m".to_string(), files: vec![file(7, "a.zip"), file(9, "b.zip")], text: String::new() });
    let first = handle_dmm_oneclick(&mut downloads, &request("9"), &detail).expect("queued");
    assert!(downloads.mark_failed(9));
    let other = handle_dmm_oneclick(&mut downloads, &request("7"), &detail).expect("queued");
    let again = handle_dmm_oneclick(&mut downloads, &request("9"), &detail).expect("queued");
    assert_eq!((first.position, other.position, again.position), (0, 1, 2));
    assert!(first.fresh && other.fresh && again.fresh);
    assert_eq!(downloads.len(), 3);
    assert!(downloads.task_at(0).failed);
    assert_eq!(downloads.task_at(1).name, "a.zip");
    assert_eq!(downloads.task_at(2).name, "b.zip");
    assert!(!downloads.task_at(2).failed);
    let served_twice = handle_dmm_oneclick(&mut downloads, &request("9"), &detail).expect("found");
    assert!(!served_twice.fresh);
    assert_eq!(served_twice.position, 2);
    assert_eq!(downloads.len(), 3);
}
