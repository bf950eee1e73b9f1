use nyaa::data::Category;

#[test]
fn rss_test_parse() {
    let xml = r#"
<rss xmlns:atom="http://www.w3.org/2005/Atom" xmlns:nyaa="https://nyaa.si/xmlns/nyaa" version="2.0">
    <channel>
        <title>Nyaa - Home - Torrent File RSS</title>
        <description>RSS Feed for Home</description>
        <link>https://nyaa.si/</link>
        <atom:link href="https://nyaa.si/?page=rss" rel="self" type="application/rss+xml"/>
        <item>
            <title>[Sokudo] The Super Cube S01E03 [1080p AV1] (weekly)</title>
            <link>https://nyaa.si/download/1953465.torrent</link>
            <guid isPermaLink="true">https://nyaa.si/view/1953465</guid>
            <pubDate>Sat, 29 Mar 2025 06:51:19 -0000</pubDate>
            <nyaa:seeders>59</nyaa:seeders>
            <nyaa:leechers>12</nyaa:leechers>
            <nyaa:downloads>93</nyaa:downloads>
            <nyaa:infoHash>6a1093801c4567cf75ab148d4db88651ce3b25e3</nyaa:infoHash>
            <nyaa:categoryId>1_2</nyaa:categoryId>
            <nyaa:category>Anime - English-translated</nyaa:category>
            <nyaa:size>205.9 MiB</nyaa:size>
            <nyaa:comments>0</nyaa:comments>
            <nyaa:trusted>No</nyaa:trusted>
            <nyaa:remake>No</nyaa:remake>
            <description><![CDATA[<a href="https://nyaa.si/view/1953465">#1953465 | [Sokudo] The Super Cube S01E03 [1080p AV1] (weekly)</a> | 205.9 MiB | Anime - English-translated | 6A1093801C4567CF75AB148D4DB88651CE3B25E3]]></description>
        </item>
    </channel>
</rss>"#;

    let results = nyaa::feed::parse(xml).unwrap();
    assert_eq!(results.len(), 1);

    let item = &results[0];
    assert_eq!(
        item.title,
        "[Sokudo] The Super Cube S01E03 [1080p AV1] (weekly)"
    );
    assert_eq!(item.link, "https://nyaa.si/download/1953465.torrent");
    assert_eq!(
        item.pub_date,
        chrono::DateTime::parse_from_rfc2822("Sat, 29 Mar 2025 06:51:19 -0000")
            .unwrap()
            .with_timezone(&chrono::Utc)
            .timestamp()
    );
    assert_eq!(item.guid, "https://nyaa.si/view/1953465");
    assert_eq!(item.id, 1953465);
    assert_eq!(item.seeders, 59);
    assert_eq!(item.leechers, 12);
    assert_eq!(item.downloads, 93);
    assert_eq!(
        item.info_hash,
        Some("6a1093801c4567cf75ab148d4db88651ce3b25e3".to_string())
    );
    assert_eq!(item.category, Category::AnimeEnglish);
    assert_eq!(item.size, 215_901_798);
    assert_eq!(item.comments, 0);
    assert_eq!(item.trusted, false);
    assert_eq!(item.remake, false);
    assert_eq!(
        item.description,
        Some("<a href=\"https://nyaa.si/view/1953465\">#1953465 | [Sokudo] The Super Cube S01E03 [1080p AV1] (weekly)</a> | 205.9 MiB | Anime - English-translated | 6A1093801C4567CF75AB148D4DB88651CE3B25E3".to_string())
    );
    assert_eq!(
        item.download_link,
        Some("https://nyaa.si/download/1953465.torrent".to_string())
    );
    assert_eq!(item.magnet_link, None);
}

#[test]
fn html_test_parse() {
    let html = r#"
  <div class="table-responsive">
	<table class="table table-bordered table-hover table-striped torrent-list">
		<thead>
			<tr>
				<th class="hdr-category text-center" style="width:80px;">Category</th>
				<th class="hdr-name" style="width:auto;">Name</th>
				<th class="hdr-comments sorting text-center" title="Comments" style="width:50px;"><a href="/?s=comments&amp;o=desc"></a><i class="fa fa-comments-o"></i></th>
				<th class="hdr-link text-center" style="width:70px;">Link</th>
				<th class="hdr-size sorting text-center" style="width:100px;"><a href="/?s=size&amp;o=desc"></a>Size</th>
				<th class="hdr-date sorting_desc text-center" title="In UTC" style="width:140px;"><a href="/?s=id&amp;o=asc"></a>Date</th>

				<th class="hdr-seeders sorting text-center" title="Seeders" style="width:50px;"><a href="/?s=seeders&amp;o=desc"></a><i class="fa fa-arrow-up" aria-hidden="true"></i></th>
				<th class="hdr-leechers sorting text-center" title="Leechers" style="width:50px;"><a href="/?s=leechers&amp;o=desc"></a><i class="fa fa-arrow-down" aria-hidden="true"></i></th>
				<th class="hdr-downloads sorting text-center" title="Completed downloads" style="width:50px;"><a href="/?s=downloads&amp;o=desc"></a><i class="fa fa-check" aria-hidden="true"></i></th>
			</tr>
		</thead>
		<tbody>
			<tr class="danger">
				<td>
					<a href="/?c=1_3" title="Anime - Non-English-translated">
						<img src="/static/img/icons/nyaa/1_3.png" alt="Anime - Non-English-translated" class="category-icon">
					</a>
				</td>
				<td colspan="2">
					<a href="/view/1953481" title="[SweetSub][刹那之花][Momentary Lily][12][WebRip][1080P][AVC 8bit][简日内嵌]">[SweetSub][刹那之花][Momentary Lily][12][WebRip][1080P][AVC 8bit][简日内嵌]</a>
				</td>
				<td class="text-center">
					<a href="/download/1953481.torrent"><i class="fa fa-fw fa-download"></i></a>
					<a href="magnet:?xt=urn:btih:84e064742ffe9f5eb4a739766a33d8631746310c&amp;dn=%5BSweetSub%5D%5B%E5%88%B9%E9%82%A3%E4%B9%8B%E8%8A%B1%5D%5BMomentary%20Lily%5D%5B12%5D%5BWebRip%5D%5B1080P%5D%5BAVC%208bit%5D%5B%E7%AE%80%E6%97%A5%E5%86%85%E5%B5%8C%5D&amp;tr=http%3A%2F%2Fnyaa.tracker.wf%3A7777%2Fannounce&amp;tr=udp%3A%2F%2Fopen.stealth.si%3A80%2Fannounce&amp;tr=udp%3A%2F%2Ftracker.opentrackr.org%3A1337%2Fannounce&amp;tr=udp%3A%2F%2Fexodus.desync.com%3A6969%2Fannounce&amp;tr=udp%3A%2F%2Ftracker.torrent.eu.org%3A451%2Fannounce"><i class="fa fa-fw fa-magnet"></i></a>
				</td>
				<td class="text-center">1.0 GiB</td>
				<td class="text-center" data-timestamp="1743239642">2025-03-29 09:14</td>

				<td class="text-center">5</td>
				<td class="text-center">41</td>
				<td class="text-center">1</td>
			</tr>
        </tbody>
    </table>
</div>
        "#;

    let results = nyaa::listpage::parse("https://nyaa.si", html).unwrap();
    assert_eq!(results.len(), 1);

    let item = &results[0];
    assert_eq!(
        item.title,
        "[SweetSub][刹那之花][Momentary Lily][12][WebRip][1080P][AVC 8bit][简日内嵌]"
    );
    assert_eq!(item.link, "https://nyaa.si/download/1953481.torrent");
    assert_eq!(
        item.pub_date,
        chrono::DateTime::from_timestamp(1743239642, 0)
            .unwrap()
            .with_timezone(&chrono::Utc)
            .timestamp()
    );
    assert_eq!(item.guid, "https://nyaa.si/view/1953481");
    assert_eq!(item.id, 1953481);
    assert_eq!(item.seeders, 5);
    assert_eq!(item.leechers, 41);
    assert_eq!(item.downloads, 1);
    assert_eq!(item.category, Category::from_str("1_3").unwrap());
    assert_eq!(item.size, 1073741824);
    assert_eq!(item.comments, 0);
    assert_eq!(item.trusted, false);
    assert_eq!(item.remake, true);
    assert_eq!(item.description, None);
    assert_eq!(
        item.download_link,
        Some("https://nyaa.si/download/1953481.torrent".to_string())
    );
    assert_eq!(item.magnet_link, Some("magnet:?xt=urn:btih:84e064742ffe9f5eb4a739766a33d8631746310c&dn=%5BSweetSub%5D%5B%E5%88%B9%E9%82%A3%E4%B9%8B%E8%8A%B1%5D%5BMomentary%20Lily%5D%5B12%5D%5BWebRip%5D%5B1080P%5D%5BAVC%208bit%5D%5B%E7%AE%80%E6%97%A5%E5%86%85%E5%B5%8C%5D&tr=http%3A%2F%2Fnyaa.tracker.wf%3A7777%2Fannounce&tr=udp%3A%2F%2Fopen.stealth.si%3A80%2Fannounce&tr=udp%3A%2F%2Ftracker.opentrackr.org%3A1337%2Fannounce&tr=udp%3A%2F%2Fexodus.desync.com%3A6969%2Fannounce&tr=udp%3A%2F%2Ftracker.torrent.eu.org%3A451%2Fannounce".to_string()));
    assert_eq!(item.info_hash, None);
}

#[test]
fn view_page_parses_core_fields() {
    let html = r##"
<div class="panel panel-success">
  <div class="panel-heading"><h3 class="panel-title"> Example Release v2 </h3></div>
  <div class="panel-body">
    <div class="row"><div class="col-md-1">Category:</div><div class="col-md-5"><a href="/?c=1_0">Anime</a> - <a href="/?c=1_2">English-translated</a></div>
      <div class="col-md-1">Date:</div><div class="col-md-5" data-timestamp="1743231079">2025-03-29</div></div>
    <div class="row"><div class="col-md-1">Submitter:</div><div class="col-md-5"><a href="/user/someone">someone</a></div>
      <div class="col-md-1">Seeders:</div><div class="col-md-1"><span style="color: green;">59</span></div></div>
    <div class="row"><div class="col-md-1">Information:</div><div class="col-md-5">https://example.org/info</div>
      <div class="col-md-1">Leechers:</div><div class="col-md-1"><span style="color: red;">12</span></div></div>
    <div class="row"><div class="col-md-1">File size:</div><div class="col-md-5">205.9 MiB</div>
      <div class="col-md-1">Completed:</div><div class="col-md-1">93</div></div>
    <div class="row"><div class="col-md-1">Info Hash:</div><div class="col-md-5">6a1093801c4567cf75ab148d4db88651ce3b25e3</div></div>
  </div>
  <div class="panel-footer"><a href="/download/1953465.torrent"><i></i> Torrent</a>
    <a href="magnet:?xt=urn:btih:6a1093801c4567cf75ab148d4db88651ce3b25e3&amp;dn=Example"><i></i> Magnet</a></div>
</div>
<div class="panel"><div id="torrent-description">Some **markdown** here.</div></div>
<div class="panel"><div class="torrent-file-list panel-body"><ul><li><i></i> example.mkv <span class="file-size">(205.9 MiB)</span></li></ul></div></div>
<div class="panel panel-default comment-panel" id="com-100">
  <div class="row"><div class="col-md-2"><a href="/user/other">other</a><img class="avatar" src="https://nyaa.si/static/img/avatars/default.png"></div>
  <div class="col-md-10"><a href="#com-100" data-timestamp="1743232000">1 minute ago</a>
  <div class="comment-content" id="torrent-comment100">nice one</div></div></div>
</div>
"##;
    let v = nyaa::viewpage::parse("https://nyaa.si", html).unwrap();
    assert_eq!(v.id, 1953465);
    assert_eq!(v.title, "Example Release v2");
    assert_eq!(v.pub_date, 1743231079);
    assert_eq!(v.seeders, 59);
    assert_eq!(v.leechers, 12);
    assert_eq!(v.downloads, 93);
    assert_eq!(v.submitter, "someone");
    assert_eq!(v.info_link, Some("https://example.org/info".to_string()));
    assert_eq!(v.info_hash, "6a1093801c4567cf75ab148d4db88651ce3b25e3");
    assert_eq!(v.category, Category::AnimeEnglish);
    assert_eq!(v.size, 215_901_798);
    assert!(v
        .magnet_link
        .as_ref()
        .unwrap()
        .starts_with("magnet:?xt=urn:btih:6a10"));
    assert_eq!(v.trusted, true);
    assert_eq!(v.remake, false);
    assert_eq!(v.guid, "https://nyaa.si/view/1953465");
    assert_eq!(
        v.download_link,
        Some("https://nyaa.si/download/1953465.torrent".to_string())
    );
    assert_eq!(v.description_md, "Some **markdown** here.");
    assert_eq!(v.files.len(), 1);
    assert_eq!(v.files[0].name, "example.mkv");
    assert_eq!(v.files[0].size, 215_901_798);
    assert_eq!(v.comments.len(), 1);
    assert_eq!(v.comments[0].id, 100);
    assert_eq!(v.comments[0].user, "other");
    assert_eq!(v.comments[0].date, 1743232000);
    assert_eq!(v.comments[0].edited_date, None);
    assert_eq!(v.comments[0].content, "nice one");
    assert_eq!(v.comments[0].avatar, None);
}

#[test]
fn feed_wire_and_page_wire_agree() {
    // The same listing row, once as the feed sends it and once as the
    // rendered page shows it: the shared fields must match one another.
    let xml = r#"<rss><channel><title>t</title><description>d</description>
<item><title>Example</title><link>https://h/download/7.torrent</link><guid>https://h/view/7</guid>
<pubDate>Sat, 29 Mar 2025 06:51:19 -0000</pubDate><nyaa:seeders>5</nyaa:seeders><nyaa:leechers>41</nyaa:leechers>
<nyaa:downloads>1</nyaa:downloads><nyaa:infoHash>ab</nyaa:infoHash><nyaa:categoryId>1_3</nyaa:categoryId>
<nyaa:category>x</nyaa:category><nyaa:size>1.0 GiB</nyaa:size><nyaa:comments>0</nyaa:comments>
<nyaa:trusted>No</nyaa:trusted><nyaa:remake>Yes</nyaa:remake><description>d</description></item></channel></rss>"#;
    let html = r#"<table class="table"><tbody><tr class="danger">
<td><a href="/?c=1_3" title="c"><img></a></td>
<td><a href="/view/7" title="Example">Example</a></td>
<td><a href="/download/7.torrent"><i></i></a><a href="magnet:?xt=x"><i></i></a></td>
<td>1.0 GiB</td><td data-timestamp="1743231079">x</td><td>5</td><td>41</td><td>1</td>
</tr></tbody></table>"#;
    let f = nyaa::feed::parse(xml).unwrap();
    let h = nyaa::listpage::parse("https://h", html).unwrap();
    assert_eq!(f.len(), 1);
    assert_eq!(h.len(), 1);
    assert_eq!(f[0].id, h[0].id);
    assert_eq!(f[0].title, h[0].title);
    assert_eq!(f[0].seeders, h[0].seeders);
    assert_eq!(f[0].leechers, h[0].leechers);
    assert_eq!(f[0].downloads, h[0].downloads);
    assert_eq!(f[0].size, h[0].size);
    assert_eq!(f[0].category, h[0].category);
    assert_eq!(f[0].guid, h[0].guid);
    assert_eq!(f[0].trusted, h[0].trusted);
    assert_eq!(f[0].remake, h[0].remake);
}
